//! Templates written as texts with a placeholder between each two, and what
//! compiling makes of them.

use crate::template::{
    closing_brace, literal_pieces, piece_pattern, pieces_pattern, placeholder_names,
    placeholder_names_from, placeholder_token, replace_token, substitute, template_pattern,
    template_pieces, wildcard_pattern, Piece,
};
use vstd::prelude::*;

verus! {

/// The template that reads `texts[0]`, `{names[0]}`, `texts[1]`, and so on
/// to the last text: one more text than names. Where there are fewer texts,
/// the names without a text after them are left out.
pub open spec fn assembled(texts: Seq<Seq<char>>, names: Seq<Seq<char>>) -> Seq<char>
    decreases texts.len(),
{
    if texts.len() == 0 {
        Seq::empty()
    } else if texts.len() == 1 || names.len() == 0 {
        texts[0]
    } else {
        texts[0] + seq!['{'] + names[0] + seq!['}'] + assembled(texts.skip(1), names.skip(1))
    }
}

/// The pieces that such a template is meant to have: the texts taken
/// literally, with one wildcard between each two.
pub open spec fn assembled_pieces(texts: Seq<Seq<char>>) -> Seq<Piece>
    decreases texts.len(),
{
    if texts.len() == 0 {
        Seq::empty()
    } else if texts.len() == 1 {
        literal_pieces(texts[0])
    } else {
        literal_pieces(texts[0]) + seq![Piece::Wildcard] + assembled_pieces(texts.skip(1))
    }
}

/// The pattern text for `text` taken literally: the text with a backslash
/// before each of its escaped characters.
pub open spec fn escaped(text: Seq<char>) -> Seq<char> {
    pieces_pattern(literal_pieces(text))
}

/// The pattern text that such a template is meant to have between its
/// anchors: the texts, escaped, with the pattern of one wildcard between
/// each two.
pub open spec fn assembled_pattern(texts: Seq<Seq<char>>) -> Seq<char>
    decreases texts.len(),
{
    if texts.len() == 0 {
        Seq::empty()
    } else if texts.len() == 1 {
        escaped(texts[0])
    } else {
        escaped(texts[0]) + wildcard_pattern() + assembled_pattern(texts.skip(1))
    }
}

/// Whether texts and names can be assembled into a template that reads as
/// it is meant: there is one more text than names, no text holds a `{`, and
/// every name has at least one character, none of them a brace.
pub open spec fn well_assembled(texts: Seq<Seq<char>>, names: Seq<Seq<char>>) -> bool {
    &&& texts.len() == names.len() + 1
    &&& forall|i: int| 0 <= i < texts.len() ==> !(#[trigger] texts[i]).contains('{')
    &&& forall|i: int|
        0 <= i < names.len() ==> {
            &&& (#[trigger] names[i]).len() > 0
            &&& !names[i].contains('{')
            &&& !names[i].contains('}')
        }
}

/// What stands for the placeholder of `name` once the names in `done` have
/// been replaced.
pub open spec fn slot(name: Seq<char>, done: Seq<Seq<char>>) -> Seq<Piece> {
    if done.contains(name) {
        seq![Piece::Wildcard]
    } else {
        placeholder_token(name)
    }
}

/// The pieces of the assembled template once the names in `done` have been
/// replaced.
pub open spec fn partly_replaced(
    texts: Seq<Seq<char>>,
    names: Seq<Seq<char>>,
    done: Seq<Seq<char>>,
) -> Seq<Piece>
    decreases texts.len(),
{
    if texts.len() == 0 {
        Seq::empty()
    } else if texts.len() == 1 || names.len() == 0 {
        literal_pieces(texts[0])
    } else {
        literal_pieces(texts[0]) + slot(names[0], done) + partly_replaced(
            texts.skip(1),
            names.skip(1),
            done,
        )
    }
}

/// The pieces of two texts, one after the other, are the pieces of the texts
/// joined.
pub proof fn lemma_literal_pieces_join(first: Seq<char>, second: Seq<char>)
    ensures
        literal_pieces(first + second) == literal_pieces(first) + literal_pieces(second),
{
    assert(literal_pieces(first + second) =~= literal_pieces(first) + literal_pieces(second));
}

/// A piece that is not the first of `token` is left in place.
pub proof fn lemma_replace_passes_piece(head: Piece, rest: Seq<Piece>, token: Seq<Piece>)
    requires
        token.len() > 0 ==> token[0] != head,
    ensures
        replace_token(seq![head] + rest, token) == seq![head] + replace_token(rest, token),
{
    let pieces = seq![head] + rest;
    assert(pieces[0] == head);
    assert(pieces.skip(1) =~= rest);
    if token.len() > 0 && token.is_prefix_of(pieces) {
        assert(token[0] == pieces.subrange(0, token.len() as int)[0]);
    }
}

/// Pieces of which none is the first of `token` are left in place.
pub proof fn lemma_replace_passes_pieces(text: Seq<Piece>, rest: Seq<Piece>, token: Seq<Piece>)
    requires
        token.len() > 0,
        forall|i: int| 0 <= i < text.len() ==> text[i] != token[0],
    ensures
        replace_token(text + rest, token) == text + replace_token(rest, token),
    decreases text.len(),
{
    if text.len() == 0 {
        assert(text + rest =~= rest);
        assert(text + replace_token(rest, token) =~= replace_token(rest, token));
    } else {
        let tail = text.skip(1);
        lemma_replace_passes_pieces(tail, rest, token);
        lemma_replace_passes_piece(text[0], tail + rest, token);
        assert(text + rest =~= seq![text[0]] + (tail + rest));
        assert(text + replace_token(rest, token) =~= seq![text[0]] + (tail + replace_token(
            rest,
            token,
        )));
    }
}

/// Where `token` stands at the start, one wildcard takes its place.
pub proof fn lemma_replace_takes_token(token: Seq<Piece>, rest: Seq<Piece>)
    requires
        token.len() > 0,
    ensures
        replace_token(token + rest, token) == seq![Piece::Wildcard] + replace_token(rest, token),
{
    let pieces = token + rest;
    assert(pieces.subrange(0, token.len() as int) =~= token);
    assert(pieces.skip(token.len() as int) =~= rest);
}

/// The piece of `placeholder_token(name)` at position `at`.
pub proof fn lemma_placeholder_token_pieces(name: Seq<char>)
    ensures
        placeholder_token(name).len() == name.len() + 2,
        placeholder_token(name)[0] == Piece::Literal('{'),
        placeholder_token(name)[name.len() as int + 1] == Piece::Literal('}'),
        forall|k: int|
            0 <= k < name.len() ==> #[trigger] placeholder_token(name)[k + 1] == Piece::Literal(
                name[k],
            ),
        placeholder_token(name) == seq![Piece::Literal('{')] + literal_pieces(name)
            + seq![Piece::Literal('}')],
{
    let spelled = seq!['{'] + name + seq!['}'];
    assert(spelled.len() == name.len() + 2);
    assert forall|k: int| 0 <= k < name.len() implies #[trigger] placeholder_token(name)[k + 1]
        == Piece::Literal(name[k]) by {
        assert(spelled[k + 1] == name[k]);
    }
    assert(placeholder_token(name) =~= seq![Piece::Literal('{')] + literal_pieces(name)
        + seq![Piece::Literal('}')]);
}

/// The placeholder of one name does not stand where the placeholder of
/// another name stands, as long as neither name holds a `}`.
pub proof fn lemma_other_token_is_no_prefix(name: Seq<char>, other: Seq<char>, rest: Seq<Piece>)
    requires
        !name.contains('}'),
        !other.contains('}'),
        name != other,
    ensures
        !placeholder_token(other).is_prefix_of(placeholder_token(name) + rest),
{
    let token = placeholder_token(other);
    let whole = placeholder_token(name) + rest;
    let n = name.len() as int;
    let m = other.len() as int;
    lemma_placeholder_token_pieces(name);
    lemma_placeholder_token_pieces(other);
    if token.is_prefix_of(whole) {
        assert forall|k: int| 0 <= k < token.len() implies token[k] == whole[k] by {
            assert(token[k] == whole.subrange(0, token.len() as int)[k]);
        }
        if m < n {
            assert(token[m + 1] == whole[m + 1]);
            assert(whole[m + 1] == placeholder_token(name)[m + 1]);
            assert(name[m] == '}');
            assert(name.contains('}'));
        } else if m > n {
            assert(token[n + 1] == whole[n + 1]);
            assert(whole[n + 1] == placeholder_token(name)[n + 1]);
            assert(other[n] == '}');
            assert(other.contains('}'));
        } else {
            assert forall|k: int| 0 <= k < name.len() implies name[k] == other[k] by {
                assert(token[k + 1] == whole[k + 1]);
                assert(whole[k + 1] == placeholder_token(name)[k + 1]);
            }
            assert(name =~= other);
        }
    }
}

/// Replacing the placeholder of one name leaves the placeholder of another
/// name as it is written, as long as the names hold no braces.
pub proof fn lemma_replace_keeps_other_token(name: Seq<char>, other: Seq<char>, rest: Seq<Piece>)
    requires
        !name.contains('{'),
        !name.contains('}'),
        !other.contains('}'),
        name != other,
    ensures
        replace_token(placeholder_token(name) + rest, placeholder_token(other))
            == placeholder_token(name) + replace_token(rest, placeholder_token(other)),
{
    let token = placeholder_token(other);
    let open = Piece::Literal('{');
    let close = Piece::Literal('}');
    let inner = literal_pieces(name);
    let whole = placeholder_token(name) + rest;
    lemma_placeholder_token_pieces(name);
    lemma_placeholder_token_pieces(other);
    lemma_other_token_is_no_prefix(name, other, rest);
    assert(whole =~= seq![open] + (inner + (seq![close] + rest)));
    assert(whole.skip(1) =~= inner + (seq![close] + rest));
    assert(replace_token(whole, token) == seq![open] + replace_token(whole.skip(1), token));
    assert forall|i: int| 0 <= i < inner.len() implies inner[i] != token[0] by {
        if inner[i] == open {
            assert(name[i] == '{');
            assert(name.contains('{'));
        }
    }
    lemma_replace_passes_pieces(inner, seq![close] + rest, token);
    lemma_replace_passes_piece(close, rest, token);
    assert(placeholder_token(name) + replace_token(rest, token) =~= seq![open] + (inner + (
        seq![close] + replace_token(rest, token))));
}

/// Before any name is replaced, the pieces are the characters of the
/// template.
pub proof fn lemma_nothing_replaced_yet(texts: Seq<Seq<char>>, names: Seq<Seq<char>>)
    ensures
        literal_pieces(assembled(texts, names)) == partly_replaced(
            texts,
            names,
            Seq::<Seq<char>>::empty(),
        ),
    decreases texts.len(),
{
    let none = Seq::<Seq<char>>::empty();
    if texts.len() == 0 {
        assert(literal_pieces(Seq::<char>::empty()) =~= Seq::<Piece>::empty());
    } else if texts.len() > 1 && names.len() > 0 {
        let rest = assembled(texts.skip(1), names.skip(1));
        lemma_nothing_replaced_yet(texts.skip(1), names.skip(1));
        lemma_literal_pieces_join(texts[0], seq!['{'] + names[0] + seq!['}'] + rest);
        lemma_literal_pieces_join(seq!['{'] + names[0] + seq!['}'], rest);
        assert(texts[0] + seq!['{'] + names[0] + seq!['}'] + rest =~= texts[0] + (seq!['{']
            + names[0] + seq!['}'] + rest));
        assert(!none.contains(names[0]));
        assert(literal_pieces(texts[0]) + slot(names[0], none) + partly_replaced(
            texts.skip(1),
            names.skip(1),
            none,
        ) =~= literal_pieces(texts[0]) + (placeholder_token(names[0]) + literal_pieces(rest)));
    }
}

/// Replacing the placeholder of one more name takes the pieces from one
/// state to the next.
pub proof fn lemma_one_name_replaced(
    texts: Seq<Seq<char>>,
    names: Seq<Seq<char>>,
    done: Seq<Seq<char>>,
    name: Seq<char>,
)
    requires
        forall|i: int| 0 <= i < texts.len() ==> !(#[trigger] texts[i]).contains('{'),
        forall|i: int|
            0 <= i < names.len() ==> !(#[trigger] names[i]).contains('{') && !names[i].contains(
                '}',
            ),
        !name.contains('}'),
    ensures
        replace_token(partly_replaced(texts, names, done), placeholder_token(name))
            == partly_replaced(texts, names, done.push(name)),
    decreases texts.len(),
{
    let token = placeholder_token(name);
    let open = Piece::Literal('{');
    lemma_placeholder_token_pieces(name);
    if texts.len() > 0 {
        let text = literal_pieces(texts[0]);
        assert forall|i: int| 0 <= i < text.len() implies text[i] != token[0] by {
            if text[i] == open {
                assert(texts[0][i] == '{');
                assert(texts[0].contains('{'));
            }
        }
        if texts.len() == 1 || names.len() == 0 {
            lemma_replace_passes_pieces(text, Seq::empty(), token);
            assert(text + Seq::<Piece>::empty() =~= text);
        } else {
            let first = names[0];
            let after = partly_replaced(texts.skip(1), names.skip(1), done);
            let after_next = partly_replaced(texts.skip(1), names.skip(1), done.push(name));
            lemma_one_name_replaced(texts.skip(1), names.skip(1), done, name);
            assert(text + slot(first, done) + after =~= text + (slot(first, done) + after));
            lemma_replace_passes_pieces(text, slot(first, done) + after, token);
            assert(replace_token(slot(first, done) + after, token) == slot(
                first,
                done.push(name),
            ) + after_next) by {
                if done.contains(first) {
                    let at = choose|i: int| 0 <= i < done.len() && done[i] == first;
                    assert(done.push(name)[at] == first);
                    lemma_replace_passes_piece(Piece::Wildcard, after, token);
                } else if first == name {
                    assert(done.push(name)[done.len() as int] == first);
                    lemma_replace_takes_token(token, after);
                } else {
                    assert(!done.push(name).contains(first)) by {
                        if done.push(name).contains(first) {
                            let at = choose|i: int|
                                0 <= i < done.push(name).len() && done.push(name)[i] == first;
                            if at < done.len() {
                                assert(done[at] == first);
                            }
                        }
                    }
                    lemma_replace_keeps_other_token(first, name, after);
                }
            }
            assert(text + slot(first, done.push(name)) + after_next =~= text + (slot(
                first,
                done.push(name),
            ) + after_next));
        }
    }
}

/// Replacing the placeholders of `params`, one after the other, takes the
/// pieces to the state in which all of them are done.
pub proof fn lemma_names_replaced(
    texts: Seq<Seq<char>>,
    names: Seq<Seq<char>>,
    done: Seq<Seq<char>>,
    params: Seq<Seq<char>>,
)
    requires
        forall|i: int| 0 <= i < texts.len() ==> !(#[trigger] texts[i]).contains('{'),
        forall|i: int|
            0 <= i < names.len() ==> !(#[trigger] names[i]).contains('{') && !names[i].contains(
                '}',
            ),
        forall|i: int| 0 <= i < params.len() ==> !(#[trigger] params[i]).contains('}'),
    ensures
        substitute(partly_replaced(texts, names, done), params) == partly_replaced(
            texts,
            names,
            done + params,
        ),
    decreases params.len(),
{
    if params.len() == 0 {
        assert(done + params =~= done);
    } else {
        lemma_one_name_replaced(texts, names, done, params[0]);
        lemma_names_replaced(texts, names, done.push(params[0]), params.skip(1));
        assert(done.push(params[0]) + params.skip(1) =~= done + params);
    }
}

/// Once every name is done, each placeholder has become one wildcard.
pub proof fn lemma_all_replaced(
    texts: Seq<Seq<char>>,
    names: Seq<Seq<char>>,
    done: Seq<Seq<char>>,
)
    requires
        texts.len() == names.len() + 1,
        forall|i: int| 0 <= i < names.len() ==> done.contains(#[trigger] names[i]),
    ensures
        partly_replaced(texts, names, done) == assembled_pieces(texts),
    decreases texts.len(),
{
    if texts.len() > 1 {
        assert(done.contains(names[0]));
        assert forall|i: int| 0 <= i < names.skip(1).len() implies done.contains(
            #[trigger] names.skip(1)[i],
        ) by {
            assert(names.skip(1)[i] == names[i + 1]);
        }
        lemma_all_replaced(texts.skip(1), names.skip(1), done);
    }
}

/// Compiling a well assembled template with names that hold no `}` and
/// among which are all the names of the template turns each placeholder into
/// one wildcard and leaves every other character as it is written.
pub proof fn lemma_assembled_template_pieces(
    texts: Seq<Seq<char>>,
    names: Seq<Seq<char>>,
    params: Seq<Seq<char>>,
)
    requires
        well_assembled(texts, names),
        forall|i: int| 0 <= i < params.len() ==> !(#[trigger] params[i]).contains('}'),
        forall|i: int| 0 <= i < names.len() ==> params.contains(#[trigger] names[i]),
    ensures
        template_pieces(assembled(texts, names), params) == assembled_pieces(texts),
{
    let none = Seq::<Seq<char>>::empty();
    lemma_nothing_replaced_yet(texts, names);
    lemma_names_replaced(texts, names, none, params);
    assert(none + params =~= params);
    lemma_all_replaced(texts, names, params);
}

/// A template without a `{` has no placeholder: whatever the names, every
/// character of it is taken literally.
pub proof fn lemma_plain_template_pieces(template: Seq<char>, params: Seq<Seq<char>>)
    requires
        !template.contains('{'),
    ensures
        template_pieces(template, params) == literal_pieces(template),
    decreases params.len(),
{
    if params.len() > 0 {
        let token = placeholder_token(params[0]);
        let text = literal_pieces(template);
        lemma_placeholder_token_pieces(params[0]);
        assert forall|i: int| 0 <= i < text.len() implies text[i] != token[0] by {
            if text[i] == token[0] {
                assert(template[i] == '{');
                assert(template.contains('{'));
            }
        }
        lemma_replace_passes_pieces(text, Seq::empty(), token);
        assert(text + Seq::<Piece>::empty() =~= text);
        lemma_plain_template_pieces(template, params.skip(1));
    }
}

/// The first `}` at or after a position of the second of two joined texts
/// stands where it stands in the second text alone.
pub proof fn lemma_closing_brace_after_prefix(prefix: Seq<char>, rest: Seq<char>, from: int)
    requires
        0 <= from,
    ensures
        closing_brace(prefix + rest, prefix.len() + from) == prefix.len() + closing_brace(
            rest,
            from,
        ),
    decreases rest.len() - from,
{
    let whole = prefix + rest;
    if from < rest.len() {
        assert(whole[prefix.len() + from] == rest[from]);
        if rest[from] != '}' {
            lemma_closing_brace_after_prefix(prefix, rest, from + 1);
        }
    }
}

/// The placeholders of the second of two joined texts are found in it as
/// they are found in the second text alone.
pub proof fn lemma_placeholder_names_after_prefix(prefix: Seq<char>, rest: Seq<char>, from: int)
    requires
        0 <= from,
    ensures
        placeholder_names_from(prefix + rest, prefix.len() + from) == placeholder_names_from(
            rest,
            from,
        ),
    decreases rest.len() - from,
{
    let whole = prefix + rest;
    let shift = prefix.len() as int;
    if from < rest.len() {
        assert(whole[shift + from] == rest[from]);
        lemma_closing_brace_after_prefix(prefix, rest, from + 1);
        let close = closing_brace(rest, from + 1);
        if rest[from] == '{' && from + 1 < close < rest.len() {
            assert(whole.subrange(shift + from + 1, shift + close) =~= rest.subrange(
                from + 1,
                close,
            ));
            lemma_placeholder_names_after_prefix(prefix, rest, close + 1);
        } else {
            lemma_placeholder_names_after_prefix(prefix, rest, from + 1);
        }
    }
}

/// No placeholder starts in a stretch of text without a `{`.
pub proof fn lemma_no_placeholder_in_plain_text(text: Seq<char>, from: int, to: int)
    requires
        0 <= from <= to <= text.len(),
        forall|i: int| from <= i < to ==> text[i] != '{',
    ensures
        placeholder_names_from(text, from) == placeholder_names_from(text, to),
    decreases to - from,
{
    if from < to {
        lemma_no_placeholder_in_plain_text(text, from + 1, to);
    }
}

/// The first `}` after a stretch of text without one stands right after the
/// stretch.
pub proof fn lemma_closing_brace_found(text: Seq<char>, from: int, at: int)
    requires
        0 <= from <= at < text.len(),
        forall|i: int| from <= i < at ==> text[i] != '}',
        text[at] == '}',
    ensures
        closing_brace(text, from) == at,
    decreases at - from,
{
    if from < at {
        lemma_closing_brace_found(text, from + 1, at);
    }
}

/// The placeholder names of a well assembled template are its names, in
/// order.
pub proof fn lemma_assembled_template_names(texts: Seq<Seq<char>>, names: Seq<Seq<char>>)
    requires
        well_assembled(texts, names),
    ensures
        placeholder_names(assembled(texts, names)) == names,
    decreases texts.len(),
{
    let whole = assembled(texts, names);
    let text = texts[0];
    assert forall|i: int| 0 <= i < text.len() implies text[i] != '{' by {
        if text[i] == '{' {
            assert(text.contains('{'));
        }
    }
    if texts.len() == 1 {
        lemma_no_placeholder_in_plain_text(whole, 0, whole.len() as int);
        assert(names =~= Seq::<Seq<char>>::empty());
    } else {
        let name = names[0];
        let rest = assembled(texts.skip(1), names.skip(1));
        let prefix = text + seq!['{'] + name + seq!['}'];
        let start = text.len() as int;
        let end = start + 1 + name.len();
        assert(whole == prefix + rest);
        assert forall|i: int| 0 <= i < name.len() implies name[i] != '}' by {
            if name[i] == '}' {
                assert(name.contains('}'));
            }
        }
        assert forall|i: int| 0 <= i < start implies whole[i] != '{' by {
            assert(whole[i] == text[i]);
        }
        lemma_no_placeholder_in_plain_text(whole, 0, start);
        assert(whole[start] == '{');
        assert forall|i: int| start + 1 <= i < end implies whole[i] != '}' by {
            assert(whole[i] == name[i - start - 1]);
        }
        assert(whole[end] == '}');
        lemma_closing_brace_found(whole, start + 1, end);
        assert(whole.subrange(start + 1, end) =~= name);
        assert(end + 1 == prefix.len());
        lemma_placeholder_names_after_prefix(prefix, rest, 0);
        assert forall|i: int| 0 <= i < texts.skip(1).len() implies !(#[trigger] texts.skip(
            1,
        )[i]).contains('{') by {
            assert(texts.skip(1)[i] == texts[i + 1]);
        }
        assert forall|i: int| 0 <= i < names.skip(1).len() implies {
            &&& (#[trigger] names.skip(1)[i]).len() > 0
            &&& !names.skip(1)[i].contains('{')
            &&& !names.skip(1)[i].contains('}')
        } by {
            assert(names.skip(1)[i] == names[i + 1]);
        }
        lemma_assembled_template_names(texts.skip(1), names.skip(1));
        assert(seq![name] + names.skip(1) =~= names);
    }
}

/// The pattern text of pieces that are joined is the pattern texts of the
/// parts, joined.
pub proof fn lemma_pieces_pattern_join(first: Seq<Piece>, second: Seq<Piece>)
    ensures
        pieces_pattern(first + second) == pieces_pattern(first) + pieces_pattern(second),
    decreases second.len(),
{
    if second.len() == 0 {
        assert(first + second =~= first);
        assert(pieces_pattern(first) + pieces_pattern(second) =~= pieces_pattern(first));
    } else {
        lemma_pieces_pattern_join(first, second.drop_last());
        assert((first + second).drop_last() =~= first + second.drop_last());
        assert((first + second).last() == second.last());
        assert(pieces_pattern(first + second) =~= pieces_pattern(first) + pieces_pattern(
            second,
        ));
    }
}

/// The pattern text of the pieces of an assembled template is the pattern
/// text of the assembly.
pub proof fn lemma_assembled_pieces_pattern(texts: Seq<Seq<char>>)
    ensures
        pieces_pattern(assembled_pieces(texts)) == assembled_pattern(texts),
    decreases texts.len(),
{
    if texts.len() > 1 {
        let text = literal_pieces(texts[0]);
        let wildcard = seq![Piece::Wildcard];
        let rest = assembled_pieces(texts.skip(1));
        lemma_assembled_pieces_pattern(texts.skip(1));
        lemma_pieces_pattern_join(text + wildcard, rest);
        lemma_pieces_pattern_join(text, wildcard);
        assert(wildcard.drop_last() =~= Seq::<Piece>::empty());
        assert(pieces_pattern(wildcard.drop_last()) =~= Seq::<char>::empty());
        assert(pieces_pattern(wildcard) =~= wildcard_pattern());
    }
}

/// The pattern by which a record of a well assembled template is matched:
/// with the placeholder names that are read out of the template, it is the
/// texts, escaped, with one wildcard where each placeholder stood, between
/// the two anchors.
pub proof fn lemma_assembled_template_pattern(texts: Seq<Seq<char>>, names: Seq<Seq<char>>)
    requires
        well_assembled(texts, names),
    ensures
        placeholder_names(assembled(texts, names)) == names,
        template_pattern(assembled(texts, names), placeholder_names(assembled(texts, names)))
            == seq!['^'] + assembled_pattern(texts) + seq!['$'],
{
    lemma_assembled_template_names(texts, names);
    assert forall|i: int| 0 <= i < names.len() implies names.contains(#[trigger] names[i]) by {}
    lemma_assembled_template_pieces(texts, names, names);
    lemma_assembled_pieces_pattern(texts);
}

/// The pattern by which a template without a `{` is matched, whatever the
/// names: the template, escaped, between the two anchors.
pub proof fn lemma_plain_template_pattern(template: Seq<char>, params: Seq<Seq<char>>)
    requires
        !template.contains('{'),
    ensures
        template_pattern(template, params) == seq!['^'] + escaped(template) + seq!['$'],
{
    lemma_plain_template_pieces(template, params);
}

/// The pattern text of a literal text is built character by character:
/// each character adds its own pattern text, which is the character itself,
/// behind a backslash where it is an escaped one.
pub proof fn lemma_escaped_text(text: Seq<char>)
    ensures
        text.len() == 0 ==> escaped(text) == Seq::<char>::empty(),
        text.len() > 0 ==> escaped(text) == escaped(text.drop_last()) + piece_pattern(
            Piece::Literal(text.last()),
        ),
{
    if text.len() > 0 {
        assert(literal_pieces(text).drop_last() =~= literal_pieces(text.drop_last()));
    } else {
        assert(literal_pieces(text) =~= Seq::<Piece>::empty());
    }
}

} // verus!
