//! Path templates: a path whose `{name}` placeholders stand for one segment
//! each, and the pattern text that a template is matched by.

use crate::text::{chars_of, string_of_range};
use vstd::prelude::*;

verus! {

/// One unit of a template once its placeholders have been recognised.
#[derive(Clone, Copy, Debug, PartialEq, Eq, Structural)]
pub enum Piece {
    /// Stands for one or more characters other than `/`.
    Wildcard,
    /// Stands for exactly this character.
    Literal(char),
}

/// The character of `text` at position `at`, taken literally.
pub open spec fn literal_piece(text: Seq<char>, at: int) -> Piece {
    Piece::Literal(text[at])
}

/// Every character of `text` taken literally.
pub open spec fn literal_pieces(text: Seq<char>) -> Seq<Piece> {
    Seq::new(text.len(), |i: int| literal_piece(text, i))
}

/// The pieces that spell the placeholder `{name}`.
pub open spec fn placeholder_token(name: Seq<char>) -> Seq<Piece> {
    literal_pieces(seq!['{'] + name + seq!['}'])
}

/// `pieces` with every occurrence of `token` replaced by one wildcard.
/// Occurrences are found from the left and do not overlap.
pub open spec fn replace_token(pieces: Seq<Piece>, token: Seq<Piece>) -> Seq<Piece>
    decreases pieces.len(),
{
    if pieces.len() == 0 {
        pieces
    } else if token.len() > 0 && token.is_prefix_of(pieces) {
        seq![Piece::Wildcard] + replace_token(pieces.skip(token.len() as int), token)
    } else {
        seq![pieces[0]] + replace_token(pieces.skip(1), token)
    }
}

/// `pieces` after the placeholder of each name has been replaced, one name
/// after the other in the order of `names`.
pub open spec fn substitute(pieces: Seq<Piece>, names: Seq<Seq<char>>) -> Seq<Piece>
    decreases names.len(),
{
    if names.len() == 0 {
        pieces
    } else {
        substitute(replace_token(pieces, placeholder_token(names[0])), names.skip(1))
    }
}

/// The pieces of `template` when `names` are its placeholders.
pub open spec fn template_pieces(template: Seq<char>, names: Seq<Seq<char>>) -> Seq<Piece> {
    substitute(literal_pieces(template), names)
}

/// The characters that a pattern would read as operators and that are
/// therefore escaped when they occur in a template.
pub open spec fn is_metacharacter(c: char) -> bool {
    c == '.' || c == '?' || c == '+' || c == '*' || c == '(' || c == ')' || c == '[' || c == ']'
}

/// The pattern text for one wildcard: one or more characters, none a `/`.
pub open spec fn wildcard_pattern() -> Seq<char> {
    seq!['[', '^', '/', ']', '+']
}

/// The pattern text for one piece.
pub open spec fn piece_pattern(piece: Piece) -> Seq<char> {
    match piece {
        Piece::Wildcard => wildcard_pattern(),
        Piece::Literal(c) => if is_metacharacter(c) {
            seq!['\\', c]
        } else {
            seq![c]
        },
    }
}

/// The pattern texts of `pieces`, one after the other.
pub open spec fn pieces_pattern(pieces: Seq<Piece>) -> Seq<char>
    decreases pieces.len(),
{
    if pieces.len() == 0 {
        Seq::empty()
    } else {
        pieces_pattern(pieces.drop_last()) + piece_pattern(pieces.last())
    }
}

/// The pattern for `pieces`, anchored at both ends.
pub open spec fn anchored_pattern(pieces: Seq<Piece>) -> Seq<char> {
    seq!['^'] + pieces_pattern(pieces) + seq!['$']
}

/// The pattern by which `template` is matched when `names` are its
/// placeholders.
pub open spec fn template_pattern(template: Seq<char>, names: Seq<Seq<char>>) -> Seq<char> {
    anchored_pattern(template_pieces(template, names))
}

/// The position of the first `}` of `text` at or after `from`; the length of
/// `text` where there is none.
pub open spec fn closing_brace(text: Seq<char>, from: int) -> int
    decreases text.len() - from,
{
    if from >= text.len() {
        text.len() as int
    } else if text[from] == '}' {
        from
    } else {
        closing_brace(text, from + 1)
    }
}

/// The names of the placeholders of `text` that start at or after `from`, in
/// the order in which they occur. A placeholder is a `{`, then one or more
/// characters other than `}`, then a `}`; the name is what stands between
/// the braces. Placeholders are found from the left and do not overlap.
pub open spec fn placeholder_names_from(text: Seq<char>, from: int) -> Seq<Seq<char>>
    decreases text.len() - from,
{
    if from < 0 || from >= text.len() {
        Seq::empty()
    } else {
        let close = closing_brace(text, from + 1);
        if text[from] == '{' && from + 1 < close < text.len() {
            seq![text.subrange(from + 1, close)] + placeholder_names_from(text, close + 1)
        } else {
            placeholder_names_from(text, from + 1)
        }
    }
}

/// The names of the placeholders of `template`, in the order in which they
/// occur; a name that occurs twice is listed twice.
pub open spec fn placeholder_names(template: Seq<char>) -> Seq<Seq<char>> {
    placeholder_names_from(template, 0)
}

/// Tells whether `c` is one of the escaped characters.
pub fn metacharacter(c: char) -> (r: bool)
    ensures
        r == is_metacharacter(c),
{
    c == '.' || c == '?' || c == '+' || c == '*' || c == '(' || c == ')' || c == '[' || c == ']'
}

/// Tells whether `token` occurs in `pieces` at position `at`.
fn token_at(pieces: &Vec<Piece>, at: usize, token: &Vec<Piece>) -> (r: bool)
    requires
        at <= pieces.len(),
    ensures
        r == token@.is_prefix_of(pieces@.skip(at as int)),
{
    if token.len() > pieces.len() - at {
        return false;
    }
    let mut k: usize = 0;
    while k < token.len()
        invariant
            at <= pieces.len(),
            token.len() <= pieces.len() - at,
            k <= token.len(),
            forall|j: int| 0 <= j < k ==> token@[j] == pieces@[at + j],
        decreases token.len() - k,
    {
        if token[k] != pieces[at + k] {
            return false;
        }
        k += 1;
    }
    true
}

/// Replaces every occurrence of `token` in `pieces` by one wildcard.
pub fn replace_placeholder(pieces: &Vec<Piece>, token: &Vec<Piece>) -> (out: Vec<Piece>)
    ensures
        out@ == replace_token(pieces@, token@),
{
    let mut out: Vec<Piece> = Vec::new();
    let mut i: usize = 0;
    assert(pieces@.skip(0) =~= pieces@);
    while i < pieces.len()
        invariant
            i <= pieces.len(),
            out@ + replace_token(pieces@.skip(i as int), token@) == replace_token(pieces@, token@),
        decreases pieces.len() - i,
    {
        let ghost rest = pieces@.skip(i as int);
        if token.len() > 0 && token_at(pieces, i, token) {
            out.push(Piece::Wildcard);
            assert(rest.skip(token@.len() as int) =~= pieces@.skip(i + token@.len()));
            i += token.len();
        } else {
            out.push(pieces[i]);
            assert(rest.skip(1) =~= pieces@.skip(i + 1));
            i += 1;
        }
    }
    out
}

/// The piece that stands for the character `c`.
pub fn literal(c: char) -> (piece: Piece)
    ensures
        piece == Piece::Literal(c),
{
    Piece::Literal(c)
}

/// The pieces of a text in which nothing has been recognised yet.
pub fn pieces_of(text: &str) -> (out: Vec<Piece>)
    ensures
        out@ == literal_pieces(text@),
{
    let chars = chars_of(text);
    let mut out: Vec<Piece> = Vec::new();
    let mut i: usize = 0;
    while i < chars.len()
        invariant
            i <= chars.len(),
            chars@ == text@,
            out@.len() == i,
            forall|k: int| 0 <= k < i ==> out@[k] == Piece::Literal(text@[k]),
        decreases chars.len() - i,
    {
        out.push(literal(chars[i]));
        i += 1;
    }
    out
}

/// The pieces that spell the placeholder of `name`.
pub fn placeholder_of(name: &str) -> (out: Vec<Piece>)
    ensures
        out@ == placeholder_token(name@),
{
    let mut out: Vec<Piece> = Vec::new();
    out.push(Piece::Literal('{'));
    let mut inner = pieces_of(name);
    out.append(&mut inner);
    out.push(Piece::Literal('}'));
    out
}

/// Replaces the placeholder of each of `names` in `pieces`, one name after
/// the other.
pub fn substitute_names(pieces: Vec<Piece>, names: &[String]) -> (out: Vec<Piece>)
    ensures
        out@ == substitute(pieces@, names.deep_view()),
{
    let ghost all = names.deep_view();
    let ghost start = pieces@;
    let mut current = pieces;
    let mut i: usize = 0;
    assert(all.skip(0) =~= all);
    while i < names.len()
        invariant
            i <= names.len(),
            all == names.deep_view(),
            substitute(current@, all.skip(i as int)) == substitute(start, all),
        decreases names.len() - i,
    {
        let token = placeholder_of(names[i].as_str());
        assert(all.skip(i as int).skip(1) =~= all.skip(i + 1));
        current = replace_placeholder(&current, &token);
        i += 1;
    }
    current
}

/// Writes out the anchored pattern for `pieces`.
pub fn pattern_of(pieces: &Vec<Piece>) -> (out: String)
    ensures
        out@ == anchored_pattern(pieces@),
{
    let mut out = String::new();
    out.push('^');
    let mut i: usize = 0;
    while i < pieces.len()
        invariant
            i <= pieces.len(),
            out@ == seq!['^'] + pieces_pattern(pieces@.take(i as int)),
        decreases pieces.len() - i,
    {
        assert(pieces@.take(i + 1).drop_last() =~= pieces@.take(i as int));
        match pieces[i] {
            Piece::Wildcard => {
                out.push('[');
                out.push('^');
                out.push('/');
                out.push(']');
                out.push('+');
            },
            Piece::Literal(c) => {
                if metacharacter(c) {
                    out.push('\\');
                }
                out.push(c);
            },
        }
        i += 1;
    }
    assert(pieces@.take(i as int) =~= pieces@);
    out.push('$');
    out
}

/// Finds the first `}` of `text` at or after `from`.
fn find_closing_brace(text: &Vec<char>, from: usize) -> (close: usize)
    requires
        from <= text.len(),
    ensures
        close == closing_brace(text@, from as int),
        from <= close <= text.len(),
{
    let mut at: usize = from;
    while at < text.len() && text[at] != '}'
        invariant
            from <= at <= text.len(),
            closing_brace(text@, at as int) == closing_brace(text@, from as int),
        decreases text.len() - at,
    {
        at += 1;
    }
    at
}

/// Reads the names of the placeholders out of `template`.
pub fn extract_placeholder_names(template: &str) -> (names: Vec<String>)
    ensures
        names.deep_view() == placeholder_names(template@),
{
    let text = chars_of(template);
    let mut names: Vec<String> = Vec::new();
    let mut at: usize = 0;
    while at < text.len()
        invariant
            at <= text.len(),
            names.deep_view() + placeholder_names_from(text@, at as int) == placeholder_names(
                text@,
            ),
        decreases text.len() - at,
    {
        let mut next: usize = at + 1;
        if text[at] == '{' {
            let close = find_closing_brace(&text, at + 1);
            if at + 1 < close && close < text.len() {
                let name = string_of_range(&text, at + 1, close);
                names.push(name);
                next = close + 1;
            }
        }
        at = next;
    }
    names
}

/// The pattern by which `template` is matched when `names` are its
/// placeholders.
pub fn compile_pattern(template: &str, names: &[String]) -> (out: String)
    ensures
        out@ == template_pattern(template@, names.deep_view()),
{
    let pieces = substitute_names(pieces_of(template), names);
    pattern_of(&pieces)
}

} // verus!
