//! What a template means: the paths that its pieces stand for, and how far
//! the pattern engine is relied on to agree.

use crate::assembly::{
    assembled, assembled_pieces, lemma_assembled_template_names, lemma_assembled_template_pieces,
    lemma_plain_template_pieces, well_assembled,
};
use crate::engine::regex_search;
use crate::template::{
    anchored_pattern, literal_pieces, placeholder_names, template_pieces, Piece,
};
use crate::transactions::template_matches;
use vstd::prelude::*;

verus! {

/// Whether `text` can stand where a placeholder stood: it has at least one
/// character and none of them is a `/`.
pub open spec fn is_segment(text: Seq<char>) -> bool {
    text.len() > 0 && !text.contains('/')
}

/// Whether `path` is one of the paths that `pieces` stand for: each literal
/// piece stands for its own character, each wildcard for one segment, and
/// together they stand for the whole path.
pub open spec fn accepts(pieces: Seq<Piece>, path: Seq<char>) -> bool
    decreases pieces.len(),
{
    if pieces.len() == 0 {
        path.len() == 0
    } else {
        match pieces[0] {
            Piece::Literal(c) => path.len() > 0 && path[0] == c && accepts(
                pieces.skip(1),
                path.skip(1),
            ),
            Piece::Wildcard => exists|k: int|
                1 <= k <= path.len() && is_segment(#[trigger] path.take(k)) && accepts(
                    pieces.skip(1),
                    path.skip(k),
                ),
        }
    }
}

/// Whether the pattern engine answers for the pattern of `pieces` on `path`
/// as the pieces mean. The engine's description of its pattern language says
/// so of a pattern made of plain and escaped characters and of `[^/]+`
/// between two anchors, as long as the template holds none of the engine's
/// other operators and the engine accepts the pattern. Nothing in this
/// library assumes it: it stands as the condition of what is proved below.
pub open spec fn engine_agrees(pieces: Seq<Piece>, path: Seq<char>) -> bool {
    regex_search(anchored_pattern(pieces), path) == Some(accepts(pieces, path))
}

/// The path that reads `texts[0]`, `values[0]`, `texts[1]`, and so on to the
/// last text: the template assembled from `texts` with a value in the place
/// of each placeholder.
pub open spec fn filled(texts: Seq<Seq<char>>, values: Seq<Seq<char>>) -> Seq<char>
    decreases texts.len(),
{
    if texts.len() == 0 {
        Seq::empty()
    } else if texts.len() == 1 || values.len() == 0 {
        texts[0]
    } else {
        texts[0] + values[0] + filled(texts.skip(1), values.skip(1))
    }
}

/// The number of `/` in `text`.
pub open spec fn slashes(text: Seq<char>) -> nat
    decreases text.len(),
{
    if text.len() == 0 {
        0
    } else {
        slashes(text.skip(1)) + if text[0] == '/' {
            1nat
        } else {
            0nat
        }
    }
}

/// The number of `/` in all of `values`.
pub open spec fn slashes_in_all(values: Seq<Seq<char>>) -> nat
    decreases values.len(),
{
    if values.len() == 0 {
        0
    } else {
        slashes(values[0]) + slashes_in_all(values.skip(1))
    }
}

/// The number of literal `/` among `pieces`.
pub open spec fn literal_slashes(pieces: Seq<Piece>) -> nat
    decreases pieces.len(),
{
    if pieces.len() == 0 {
        0
    } else {
        literal_slashes(pieces.skip(1)) + if pieces[0] == Piece::Literal('/') {
            1nat
        } else {
            0nat
        }
    }
}

/// Pieces that begin with a literal text stand for the paths that begin
/// with that text and go on as the other pieces say.
pub proof fn lemma_accepts_after_text(text: Seq<char>, rest: Seq<Piece>, path: Seq<char>)
    ensures
        accepts(literal_pieces(text) + rest, path) <==> text.is_prefix_of(path) && accepts(
            rest,
            path.skip(text.len() as int),
        ),
    decreases text.len(),
{
    let pieces = literal_pieces(text) + rest;
    if text.len() == 0 {
        assert(pieces =~= rest);
        assert(path.skip(0) =~= path);
        assert(text =~= path.subrange(0, 0));
    } else {
        let tail = text.skip(1);
        assert(pieces[0] == Piece::Literal(text[0]));
        assert(pieces.skip(1) =~= literal_pieces(tail) + rest);
        lemma_accepts_after_text(tail, rest, path.skip(1));
        if path.len() > 0 && path[0] == text[0] {
            if text.len() <= path.len() {
                assert(path.skip(1).skip(tail.len() as int) =~= path.skip(text.len() as int));
            }
            if tail.is_prefix_of(path.skip(1)) {
                assert(tail == path.skip(1).subrange(0, tail.len() as int));
                assert(text =~= path.subrange(0, text.len() as int)) by {
                    assert forall|i: int| 0 <= i < text.len() implies text[i] == path[i] by {
                        if i > 0 {
                            assert(tail[i - 1] == path.skip(1).subrange(0, tail.len() as int)[i
                                - 1]);
                        }
                    }
                }
            }
            if text.is_prefix_of(path) {
                assert(text == path.subrange(0, text.len() as int));
                assert(tail =~= path.skip(1).subrange(0, tail.len() as int)) by {
                    let after = path.skip(1);
                    assert forall|i: int| 0 <= i < tail.len() implies tail[i] == after[i] by {
                        assert(text[i + 1] == path.subrange(0, text.len() as int)[i + 1]);
                    }
                }
            }
        } else {
            if text.is_prefix_of(path) {
                assert(text[0] == path.subrange(0, text.len() as int)[0]);
            }
        }
    }
}

/// Pieces that begin with a wildcard stand for every path that begins with
/// a segment and goes on as the other pieces say.
pub proof fn lemma_accepts_after_segment(value: Seq<char>, rest: Seq<Piece>, path: Seq<char>)
    requires
        is_segment(value),
        accepts(rest, path),
    ensures
        accepts(seq![Piece::Wildcard] + rest, value + path),
{
    let pieces = seq![Piece::Wildcard] + rest;
    let whole = value + path;
    let k = value.len() as int;
    assert(pieces.skip(1) =~= rest);
    assert(whole.take(k) =~= value);
    assert(whole.skip(k) =~= path);
}

/// A template without placeholders stands for one path: itself.
pub proof fn lemma_literal_pieces_accept_themselves_only(template: Seq<char>, path: Seq<char>)
    ensures
        accepts(literal_pieces(template), path) <==> path == template,
{
    let none = Seq::<Piece>::empty();
    lemma_accepts_after_text(template, none, path);
    assert(literal_pieces(template) + none =~= literal_pieces(template));
    if template.is_prefix_of(path) && path.skip(template.len() as int).len() == 0 {
        assert(path =~= template);
    }
    if path == template {
        assert(template =~= path.subrange(0, template.len() as int));
    }
}

/// A well assembled template stands for every path that has a segment in
/// the place of each placeholder.
pub proof fn lemma_filled_path_is_accepted(texts: Seq<Seq<char>>, values: Seq<Seq<char>>)
    requires
        texts.len() == values.len() + 1,
        forall|i: int| 0 <= i < values.len() ==> is_segment(#[trigger] values[i]),
    ensures
        accepts(assembled_pieces(texts), filled(texts, values)),
    decreases texts.len(),
{
    let text = texts[0];
    if texts.len() == 1 {
        lemma_literal_pieces_accept_themselves_only(text, text);
    } else {
        let value = values[0];
        let rest = assembled_pieces(texts.skip(1));
        let rest_path = filled(texts.skip(1), values.skip(1));
        assert forall|i: int| 0 <= i < values.skip(1).len() implies is_segment(
            #[trigger] values.skip(1)[i],
        ) by {
            assert(values.skip(1)[i] == values[i + 1]);
        }
        lemma_filled_path_is_accepted(texts.skip(1), values.skip(1));
        lemma_accepts_after_segment(value, rest, rest_path);
        let path = text + (value + rest_path);
        lemma_accepts_after_text(text, seq![Piece::Wildcard] + rest, path);
        assert(text =~= path.subrange(0, text.len() as int));
        assert(path.skip(text.len() as int) =~= value + rest_path);
        assert(literal_pieces(text) + seq![Piece::Wildcard] + rest =~= literal_pieces(text) + (
            seq![Piece::Wildcard] + rest));
        assert(text + value + rest_path =~= path);
    }
}

/// The slashes of two texts that are joined are those of the two texts.
pub proof fn lemma_slashes_join(first: Seq<char>, second: Seq<char>)
    ensures
        slashes(first + second) == slashes(first) + slashes(second),
    decreases first.len(),
{
    if first.len() == 0 {
        assert(first + second =~= second);
    } else {
        lemma_slashes_join(first.skip(1), second);
        assert((first + second).skip(1) =~= first.skip(1) + second);
    }
}

/// The literal slashes of pieces that are joined are those of the parts.
pub proof fn lemma_literal_slashes_join(first: Seq<Piece>, second: Seq<Piece>)
    ensures
        literal_slashes(first + second) == literal_slashes(first) + literal_slashes(second),
    decreases first.len(),
{
    if first.len() == 0 {
        assert(first + second =~= second);
    } else {
        lemma_literal_slashes_join(first.skip(1), second);
        assert((first + second).skip(1) =~= first.skip(1) + second);
    }
}

/// A text has as many slashes as its pieces have literal slashes.
pub proof fn lemma_literal_slashes_of_text(text: Seq<char>)
    ensures
        literal_slashes(literal_pieces(text)) == slashes(text),
    decreases text.len(),
{
    if text.len() > 0 {
        lemma_literal_slashes_of_text(text.skip(1));
        assert(literal_pieces(text).skip(1) =~= literal_pieces(text.skip(1)));
    }
}

/// A text has a slash exactly if its number of slashes is not zero.
pub proof fn lemma_slashes_count(text: Seq<char>)
    ensures
        text.contains('/') <==> slashes(text) > 0,
    decreases text.len(),
{
    if text.len() > 0 {
        let tail = text.skip(1);
        lemma_slashes_count(tail);
        if text.contains('/') {
            let at = choose|i: int| 0 <= i < text.len() && text[i] == '/';
            if at > 0 {
                assert(tail[at - 1] == '/');
                assert(tail.contains('/'));
            }
        }
        if slashes(text) > 0 {
            if text[0] != '/' {
                let at = choose|i: int| 0 <= i < tail.len() && tail[i] == '/';
                assert(text[at + 1] == '/');
            }
            assert(text.contains('/'));
        }
    }
}

/// A path that pieces stand for has as many slashes as the pieces have
/// literal slashes: a wildcard stands for none.
pub proof fn lemma_accepted_path_slashes(pieces: Seq<Piece>, path: Seq<char>)
    requires
        accepts(pieces, path),
    ensures
        slashes(path) == literal_slashes(pieces),
    decreases pieces.len(),
{
    if pieces.len() > 0 {
        match pieces[0] {
            Piece::Literal(c) => {
                lemma_accepted_path_slashes(pieces.skip(1), path.skip(1));
            },
            Piece::Wildcard => {
                let k = choose|k: int|
                    1 <= k <= path.len() && is_segment(#[trigger] path.take(k)) && accepts(
                        pieces.skip(1),
                        path.skip(k),
                    );
                lemma_accepted_path_slashes(pieces.skip(1), path.skip(k));
                lemma_slashes_count(path.take(k));
                lemma_slashes_join(path.take(k), path.skip(k));
                assert(path.take(k) + path.skip(k) =~= path);
            },
        }
    }
}

/// The slashes of a filled path are the literal slashes of the template's
/// pieces and the slashes of the values.
pub proof fn lemma_filled_path_slashes(texts: Seq<Seq<char>>, values: Seq<Seq<char>>)
    requires
        texts.len() == values.len() + 1,
    ensures
        slashes(filled(texts, values)) == literal_slashes(assembled_pieces(texts))
            + slashes_in_all(values),
    decreases texts.len(),
{
    let text = texts[0];
    lemma_literal_slashes_of_text(text);
    if texts.len() > 1 {
        let value = values[0];
        let wildcard = seq![Piece::Wildcard];
        let rest = assembled_pieces(texts.skip(1));
        let rest_path = filled(texts.skip(1), values.skip(1));
        lemma_filled_path_slashes(texts.skip(1), values.skip(1));
        lemma_slashes_join(text + value, rest_path);
        lemma_slashes_join(text, value);
        lemma_literal_slashes_join(literal_pieces(text) + wildcard, rest);
        lemma_literal_slashes_join(literal_pieces(text), wildcard);
        assert(wildcard.skip(1) =~= Seq::<Piece>::empty());
        assert(literal_slashes(wildcard.skip(1)) == 0);
        assert(literal_slashes(wildcard) == 0);
    }
}

/// Where one of the values has a slash, all of them together have one.
pub proof fn lemma_slash_in_some_value(values: Seq<Seq<char>>, at: int)
    requires
        0 <= at < values.len(),
        values[at].contains('/'),
    ensures
        slashes_in_all(values) > 0,
    decreases values.len(),
{
    if at == 0 {
        lemma_slashes_count(values[0]);
    } else {
        assert(values.skip(1)[at - 1] == values[at]);
        lemma_slash_in_some_value(values.skip(1), at - 1);
    }
}

/// A well assembled template does not stand for a path that has a value
/// with a `/` in the place of one of its placeholders.
pub proof fn lemma_value_with_slash_is_not_accepted(
    texts: Seq<Seq<char>>,
    values: Seq<Seq<char>>,
    at: int,
)
    requires
        texts.len() == values.len() + 1,
        0 <= at < values.len(),
        values[at].contains('/'),
    ensures
        !accepts(assembled_pieces(texts), filled(texts, values)),
{
    lemma_filled_path_slashes(texts, values);
    lemma_slash_in_some_value(values, at);
    if accepts(assembled_pieces(texts), filled(texts, values)) {
        lemma_accepted_path_slashes(assembled_pieces(texts), filled(texts, values));
    }
}

/// Round trip: a path that has a segment in the place of each placeholder
/// of a well assembled template matches the template with the names that
/// are read out of it, where the engine agrees.
pub proof fn lemma_round_trip_matches(
    texts: Seq<Seq<char>>,
    names: Seq<Seq<char>>,
    values: Seq<Seq<char>>,
)
    requires
        well_assembled(texts, names),
        values.len() == names.len(),
        forall|i: int| 0 <= i < values.len() ==> is_segment(#[trigger] values[i]),
    ensures
        accepts(
            template_pieces(assembled(texts, names), placeholder_names(assembled(texts, names))),
            filled(texts, values),
        ),
        engine_agrees(assembled_pieces(texts), filled(texts, values)) ==> template_matches(
            assembled(texts, names),
            filled(texts, values),
            placeholder_names(assembled(texts, names)),
        ),
{
    lemma_assembled_template_names(texts, names);
    assert forall|i: int| 0 <= i < names.len() implies names.contains(#[trigger] names[i]) by {}
    lemma_assembled_template_pieces(texts, names, names);
    lemma_filled_path_is_accepted(texts, values);
}

/// A path that has a value with a `/` in the place of a placeholder of a
/// well assembled template does not match the template, where the engine
/// agrees.
pub proof fn lemma_value_with_slash_does_not_match(
    texts: Seq<Seq<char>>,
    names: Seq<Seq<char>>,
    values: Seq<Seq<char>>,
    at: int,
)
    requires
        well_assembled(texts, names),
        values.len() == names.len(),
        0 <= at < values.len(),
        values[at].contains('/'),
    ensures
        !accepts(
            template_pieces(assembled(texts, names), placeholder_names(assembled(texts, names))),
            filled(texts, values),
        ),
        engine_agrees(assembled_pieces(texts), filled(texts, values)) ==> !template_matches(
            assembled(texts, names),
            filled(texts, values),
            placeholder_names(assembled(texts, names)),
        ),
{
    lemma_assembled_template_names(texts, names);
    assert forall|i: int| 0 <= i < names.len() implies names.contains(#[trigger] names[i]) by {}
    lemma_assembled_template_pieces(texts, names, names);
    lemma_value_with_slash_is_not_accepted(texts, values, at);
}

/// A template without a `{` matches its own text and no other path,
/// whatever the names, where the engine agrees.
pub proof fn lemma_literal_template_matches_itself_only(
    template: Seq<char>,
    params: Seq<Seq<char>>,
    path: Seq<char>,
)
    requires
        !template.contains('{'),
    ensures
        accepts(template_pieces(template, params), path) <==> path == template,
        engine_agrees(literal_pieces(template), path) ==> (template_matches(
            template,
            path,
            params,
        ) <==> path == template),
{
    lemma_plain_template_pieces(template, params);
    lemma_literal_pieces_accept_themselves_only(template, path);
}

} // verus!
