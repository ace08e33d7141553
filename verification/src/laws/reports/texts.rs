//! What the texts that are read from files come apart into.

use crate::text::{
    after_last_part, behind_last, has_prefix, has_suffix, index_from, index_from_bounds, is_space,
    part_from, part_from_bounds, pieces, pieces_from, segments, segments_from, simple_name,
    skip_char, skip_char_back, skip_space, skip_space_back, stands_at, trimmed, trimmed_of,
    without_prefix, without_suffix,
};
use vstd::prelude::*;

verus! {

// ── Pieces between separators ────────────────────────────────────────────────

/// Texts one behind the other, with a separator between any two.
pub open spec fn join(parts: Seq<Seq<char>>, c: char) -> Seq<char>
    decreases parts.len(),
{
    if parts.len() == 0 {
        Seq::empty()
    } else if parts.len() == 1 {
        parts[0]
    } else {
        parts[0] + seq![c] + join(parts.skip(1), c)
    }
}

/// Whether texts are not empty and hold no separator.
pub open spec fn are_parts(parts: Seq<Seq<char>>, c: char) -> bool {
    forall|k: int|
        0 <= k < parts.len() ==> (#[trigger] parts[k]).len() > 0 && !parts[k].contains(c)
}

proof fn index_is_shifted(before: Seq<char>, text: Seq<char>, c: char, i: int)
    requires
        0 <= i <= text.len(),
    ensures
        index_from(before + text, c, before.len() + i) == before.len() + index_from(text, c, i),
    decreases text.len() - i,
{
    if i < text.len() {
        assert((before + text)[before.len() + i] == text[i]);
        index_is_shifted(before, text, c, i + 1);
    }
}

proof fn segments_are_shifted(before: Seq<char>, text: Seq<char>, c: char, i: int)
    requires
        0 <= i <= text.len(),
    ensures
        segments_from(before + text, c, before.len() + i) == segments_from(text, c, i),
    decreases text.len() - i,
{
    if i < text.len() {
        index_is_shifted(before, text, c, i);
        index_from_bounds(text, c, i);
        let end = index_from(text, c, i);
        if end > i {
            segments_are_shifted(before, text, c, end);
            assert((before + text).subrange(before.len() + i, before.len() + end)
                =~= text.subrange(i, end));
        } else {
            segments_are_shifted(before, text, c, i + 1);
        }
    }
}

proof fn index_passes_piece(piece: Seq<char>, rest: Seq<char>, c: char, i: int)
    requires
        0 <= i <= piece.len(),
        !piece.contains(c),
        rest.len() == 0 || rest[0] == c,
    ensures
        index_from(piece + rest, c, i) == piece.len(),
    decreases piece.len() - i,
{
    if i < piece.len() {
        assert((piece + rest)[i] == piece[i]);
        index_passes_piece(piece, rest, c, i + 1);
    } else if rest.len() > 0 {
        assert((piece + rest)[i] == rest[0]);
    }
}

/// A text comes apart at its first separator: what is before it is the first
/// piece, unless it is empty, and the others are those of what is behind.
pub proof fn first_piece_comes_off(piece: Seq<char>, c: char, rest: Seq<char>)
    requires
        !piece.contains(c),
    ensures
        segments(piece + seq![c] + rest, c) == (if piece.len() > 0 {
            seq![piece] + segments(rest, c)
        } else {
            segments(rest, c)
        }),
        segments(piece, c) == (if piece.len() > 0 {
            seq![piece]
        } else {
            Seq::empty()
        }),
{
    let text = piece + seq![c] + rest;
    let behind = seq![c] + rest;
    assert(text =~= piece + behind);
    index_passes_piece(piece, behind, c, 0);
    assert(text =~= (piece + seq![c]) + rest);
    segments_are_shifted(piece + seq![c], rest, c, 0);
    assert(text[piece.len() as int] == c);
    assert(segments_from(text, c, piece.len() as int) == segments_from(
        text,
        c,
        piece.len() as int + 1,
    ));
    assert(text.subrange(0, piece.len() as int) =~= piece);
    index_passes_piece(piece, Seq::empty(), c, 0);
    assert(piece + Seq::empty() =~= piece);
    assert(piece.subrange(0, piece.len() as int) =~= piece);
    if piece.len() > 0 {
        assert(segments_from(piece, c, piece.len() as int) == Seq::<Seq<char>>::empty());
        assert(segments(piece, c) =~= seq![piece]);
    }
}

/// What is joined with separators comes apart into the same pieces.
pub proof fn joined_comes_apart(parts: Seq<Seq<char>>, c: char)
    requires
        are_parts(parts, c),
    ensures
        segments(join(parts, c), c) == parts,
    decreases parts.len(),
{
    if parts.len() == 0 {
        assert(parts =~= Seq::empty());
    } else if parts.len() == 1 {
        first_piece_comes_off(parts[0], c, Seq::empty());
        assert(parts =~= seq![parts[0]]);
    } else {
        let rest = parts.skip(1);
        assert forall|k: int| 0 <= k < rest.len() implies (#[trigger] rest[k]).len() > 0
            && !rest[k].contains(c) by {
            assert(rest[k] == parts[k + 1]);
        }
        joined_comes_apart(rest, c);
        first_piece_comes_off(parts[0], c, join(rest, c));
        assert(parts =~= seq![parts[0]] + rest);
    }
}

// ── Ends ─────────────────────────────────────────────────────────────────────

/// A prefix comes off the text that it stands before.
pub proof fn prefix_comes_off(prefix: Seq<char>, text: Seq<char>)
    ensures
        has_prefix(prefix + text, prefix),
        without_prefix(prefix + text, prefix) == text,
{
    let all = prefix + text;
    assert(all.subrange(0, prefix.len() as int) =~= prefix);
    assert(all.subrange(prefix.len() as int, all.len() as int) =~= text);
}

/// A text that does not start or end so stays as it is.
pub proof fn other_texts_stay(text: Seq<char>, end: Seq<char>)
    ensures
        !has_prefix(text, end) ==> without_prefix(text, end) == text,
        !has_suffix(text, end) ==> without_suffix(text, end) == text,
{
}

// ── Names of types ───────────────────────────────────────────────────────────

proof fn nothing_stands_in(text: Seq<char>, part: Seq<char>, end: int, low: int)
    requires
        0 <= low <= end <= text.len(),
        part.len() > 0,
        forall|k: int| low <= k < end ==> text[k] != part[0],
    ensures
        behind_last(text, part, end) == behind_last(text, part, low),
    decreases end - low,
{
    if low < end {
        if stands_at(text, part, end - 1) {
            assert(text.subrange(end - 1, end - 1 + part.len())[0] == part[0]);
        }
        nothing_stands_in(text, part, end - 1, low);
    }
}

/// What stands behind the last separator is the end of a text, where the separator
/// cannot start in it.
pub proof fn end_is_behind_last(before: Seq<char>, part: Seq<char>, name: Seq<char>)
    requires
        part.len() > 0,
        !name.contains(part[0]),
        forall|k: int| 0 < k < part.len() ==> #[trigger] part[k] == part[0],
    ensures
        after_last_part(before + part + name, part) == name,
        after_last_part(name, part) == name,
{
    let text = before + part + name;
    let at = before.len() as int;
    assert forall|k: int| at + part.len() <= k < text.len() implies text[k] != part[0] by {
        assert(text[k] == name[k - at - part.len()]);
    }
    nothing_stands_in(text, part, text.len() as int, at + part.len());
    assert(text.subrange(at, at + part.len()) =~= part);
    ends_in_part(text, part, at, at + part.len());
    assert(text.subrange(at + part.len(), text.len() as int) =~= name);
    nothing_stands_in(name, part, name.len() as int, 0);
    assert(name.subrange(0, name.len() as int) =~= name);
}

proof fn ends_in_part(text: Seq<char>, part: Seq<char>, at: int, end: int)
    requires
        0 <= at < end <= at + part.len() <= text.len(),
        stands_at(text, part, at),
        part.len() > 0,
        forall|k: int| at + part.len() <= k < text.len() ==> text[k] != part[0],
        forall|k: int| 0 < k < part.len() ==> #[trigger] part[k] == part[0],
    ensures
        behind_last(text, part, end) == at + part.len(),
    decreases end - at,
{
    if end - 1 > at {
        if stands_at(text, part, end - 1) {
            let last = end - 1 + part.len() - 1;
            assert(text.subrange(end - 1, end - 1 + part.len())[part.len() - 1] == part[part.len() - 1]);
            assert(text[last] == part[part.len() - 1]);
            assert(part[part.len() - 1] == part[0]);
        }
        ends_in_part(text, part, at, end - 1);
    }
}

proof fn plain_is_trimmed(name: Seq<char>)
    requires
        name.len() > 0,
        !is_space(name[0]),
        !is_space(name[name.len() - 1]),
    ensures
        trimmed(name) == name,
{
    assert(skip_space(name, 0, name.len() as int) == 0);
    assert(skip_space_back(name, 0, name.len() as int) == name.len());
    assert(name.subrange(0, name.len() as int) =~= name);
}

/// The name of a type is what stands behind the last separator and before the first
/// bracket.
pub proof fn type_name_is_plain(
    before: Seq<char>,
    part: Seq<char>,
    name: Seq<char>,
    rest: Seq<char>,
)
    requires
        part.len() > 0,
        name.len() > 0,
        !name.contains(part[0]),
        !name.contains('<'),
        !before.contains('<'),
        !part.contains('<'),
        !is_space(name[0]),
        !is_space(name[name.len() - 1]),
        forall|k: int| 0 < k < part.len() ==> #[trigger] part[k] == part[0],
        rest.len() == 0 || rest[0] == '<',
    ensures
        simple_name(before + part + name + rest, part) == name,
        simple_name(name + rest, part) == name,
{
    let long = before + part + name;
    assert forall|k: int| 0 <= k < long.len() implies long[k] != '<' by {
        if k < before.len() {
            assert(before.contains(before[k]));
        } else if k < before.len() + part.len() {
            assert(part.contains(part[k - before.len()]));
        } else {
            assert(name.contains(name[k - before.len() - part.len()]));
        }
    }
    index_passes_piece(long, rest, '<', 0);
    assert((long + rest).subrange(0, long.len() as int) =~= long);
    index_passes_piece(name, rest, '<', 0);
    assert((name + rest).subrange(0, name.len() as int) =~= name);
    end_is_behind_last(before, part, name);
    plain_is_trimmed(name);
}

// ── Quotes ───────────────────────────────────────────────────────────────────

/// A text between two marks that does not hold them is what is left without them,
/// and one without marks at its ends stays as it is.
pub proof fn marks_come_off(text: Seq<char>, c: char)
    requires
        text.len() > 0,
        text[0] != c,
        text[text.len() - 1] != c,
    ensures
        trimmed_of(seq![c] + text + seq![c], c) == text,
        trimmed_of(text, c) == text,
{
    let all = seq![c] + text + seq![c];
    let n = all.len() as int;
    assert(all[1] == text[0]);
    assert(skip_char(all, c, 1, n) == 1);
    assert(skip_char(all, c, 0, n) == 1);
    assert(all[n - 2] == text[text.len() - 1]);
    assert(skip_char_back(all, c, 1, n - 1) == n - 1);
    assert(skip_char_back(all, c, 1, n) == n - 1);
    assert(all.subrange(1, n - 1) =~= text);
    assert(skip_char(text, c, 0, text.len() as int) == 0);
    assert(skip_char_back(text, c, 0, text.len() as int) == text.len());
    assert(text.subrange(0, text.len() as int) =~= text);
}

// ── Pieces between longer separators ─────────────────────────────────────────

proof fn part_is_shifted(before: Seq<char>, text: Seq<char>, part: Seq<char>, i: int)
    requires
        0 <= i <= text.len(),
    ensures
        part_from(before + text, part, before.len() + i) == before.len() + part_from(
            text,
            part,
            i,
        ),
    decreases text.len() - i,
{
    if i < text.len() {
        let all = before + text;
        if i + part.len() <= text.len() {
            assert(all.subrange(before.len() + i, before.len() + i + part.len())
                =~= text.subrange(i, i + part.len()));
        }
        part_is_shifted(before, text, part, i + 1);
    }
}

proof fn pieces_are_shifted(before: Seq<char>, text: Seq<char>, part: Seq<char>, i: int)
    requires
        0 <= i <= text.len(),
        part.len() > 0,
    ensures
        pieces_from(before + text, part, before.len() + i) == pieces_from(text, part, i),
    decreases text.len() - i,
{
    if i < text.len() {
        part_is_shifted(before, text, part, i);
        part_from_bounds(text, part, i);
        let end = part_from(text, part, i);
        if end > i {
            pieces_are_shifted(before, text, part, end);
            assert((before + text).subrange(before.len() + i, before.len() + end)
                =~= text.subrange(i, end));
        } else if i + part.len() <= text.len() {
            pieces_are_shifted(before, text, part, i + part.len());
        }
    }
}

proof fn part_passes_piece(piece: Seq<char>, rest: Seq<char>, part: Seq<char>, i: int)
    requires
        0 <= i <= piece.len(),
        part.len() > 0,
        !piece.contains(part[0]),
        rest.len() == 0 || stands_at(piece + rest, part, piece.len() as int),
    ensures
        part_from(piece + rest, part, i) == piece.len(),
    decreases piece.len() - i,
{
    let text = piece + rest;
    if i < piece.len() {
        if stands_at(text, part, i) {
            assert(text.subrange(i, i + part.len())[0] == part[0]);
            assert(text[i] == piece[i]);
        }
        part_passes_piece(piece, rest, part, i + 1);
    }
}

/// A name comes apart at its first separator: what is before it is the first piece,
/// and the others are those of what is behind.
pub proof fn first_name_comes_off(piece: Seq<char>, part: Seq<char>, rest: Seq<char>)
    requires
        part.len() > 0,
        piece.len() > 0,
        !piece.contains(part[0]),
    ensures
        pieces(piece + part + rest, part) == seq![piece] + pieces(rest, part),
        pieces(piece, part) == seq![piece],
{
    let text = piece + part + rest;
    let behind = part + rest;
    let at = piece.len() as int;
    assert(text =~= piece + behind);
    assert(text.subrange(at, at + part.len()) =~= part);
    part_passes_piece(piece, behind, part, 0);
    assert(text =~= (piece + part) + rest);
    pieces_are_shifted(piece + part, rest, part, 0);
    part_from_bounds(text, part, at);
    assert(part_from(text, part, at) == at);
    assert(pieces_from(text, part, at) == pieces_from(text, part, at + part.len()));
    assert(text.subrange(0, at) =~= piece);
    part_passes_piece(piece, Seq::empty(), part, 0);
    assert(piece + Seq::empty() =~= piece);
    assert(piece.subrange(0, at) =~= piece);
    assert(pieces_from(piece, part, at) == Seq::<Seq<char>>::empty());
    assert(pieces(piece, part) =~= seq![piece]);
}

} // verus!
