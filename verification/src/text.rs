//! Text: slices of source text by byte offset, and operations on strings,
//! stated over their characters.

use crate::items::{put, views, views_empty};
use vstd::prelude::*;
use vstd::string::{StrSliceExecFns, StringExecFns, StringSliceAdditionalSpecFns};
use vstd::utf8::{
    decode_utf8, encode_utf8, encode_utf8_decode_utf8, encode_utf8_valid_utf8, is_char_boundary,
    is_char_boundary_iff_not_is_continuation_byte, is_char_boundary_start_end_of_seq,
};

verus! {

/// The characters of an optional string.
pub open spec fn opt_text(text: Option<String>) -> Option<Seq<char>> {
    match text {
        Some(s) => Some(s@),
        None => None,
    }
}

/// The characters that the bytes `start..end` of `source` encode. Where the
/// range is not inside the source, or cuts a character in two, there are none.
pub open spec fn text_between(source: Seq<char>, start: int, end: int) -> Seq<char> {
    let bytes = encode_utf8(source);
    if 0 <= start <= end <= bytes.len() && is_char_boundary(bytes, start) && is_char_boundary(
        bytes,
        end,
    ) {
        decode_utf8(bytes.subrange(start, end))
    } else {
        Seq::empty()
    }
}

/// The text between two byte offsets.
pub fn slice_text(source: &str, start: usize, end: usize) -> (text: &str)
    ensures
        text@ == text_between(source@, start as int, end as int),
{
    proof {
        reveal_strlit("");
        assert(""@ =~= Seq::<char>::empty());
        encode_utf8_valid_utf8(source@);
    }
    if start > end || end > source.as_bytes().len() || !source.is_char_boundary(start)
        || !source.is_char_boundary(end) {
        return "";
    }
    let (head, _tail) = source.split_at(end);
    proof {
        let bytes = source.spec_bytes();
        encode_utf8_valid_utf8(head@);
        if start < end {
            is_char_boundary_iff_not_is_continuation_byte(bytes, start as int);
            is_char_boundary_iff_not_is_continuation_byte(head.spec_bytes(), start as int);
            assert(head.spec_bytes()[start as int] == bytes[start as int]);
        } else {
            is_char_boundary_start_end_of_seq(head.spec_bytes());
        }
    }
    let (_before, text) = head.split_at(start);
    proof {
        assert(text.spec_bytes() =~= source.spec_bytes().subrange(start as int, end as int));
        encode_utf8_decode_utf8(text@);
    }
    text
}

/// Whether two strings hold the same characters.
pub fn same(a: &str, b: &str) -> (equal: bool)
    ensures
        equal == (a@ == b@),
{
    let x = a.as_bytes();
    let y = b.as_bytes();
    proof {
        encode_utf8_decode_utf8(a@);
        encode_utf8_decode_utf8(b@);
    }
    if x.len() != y.len() {
        return false;
    }
    let mut i: usize = 0;
    while i < x.len()
        invariant
            i <= x@.len(),
            x@.len() == y@.len(),
            x@ == encode_utf8(a@),
            y@ == encode_utf8(b@),
            forall|j: int| 0 <= j < i ==> x@[j] == y@[j],
        decreases x@.len() - i,
    {
        if x[i] != y[i] {
            return false;
        }
        i += 1;
    }
    assert(x@ =~= y@);
    true
}

/// The characters of a string.
pub fn chars_of(s: &str) -> (chars: Vec<char>)
    ensures
        chars@ == s@,
{
    let mut chars: Vec<char> = Vec::new();
    for c in it: s.chars()
        invariant
            chars@ == it.seq().subrange(0, it.index()),
            it.seq() == s@,
    {
        chars.push(c);
        assert(it.seq().subrange(0, it.index() + 1) =~= it.seq().subrange(0, it.index()).push(c));
    }
    assert(chars@ =~= s@);
    chars
}

/// The number of bytes of a text.
pub open spec fn byte_count(text: Seq<char>) -> nat {
    encode_utf8(text).len()
}

/// The number of bytes of a text.
pub fn byte_length(text: &str) -> (n: usize)
    ensures
        n == byte_count(text@),
{
    text.as_bytes().len()
}

/// A text has at least as many bytes as characters.
pub proof fn bytes_at_least_chars(text: Seq<char>)
    ensures
        byte_count(text) >= text.len(),
    decreases text.len(),
{
    if text.len() > 0 {
        bytes_at_least_chars(text.drop_first());
    }
}

/// Whether a text is empty.
pub fn is_empty(text: &str) -> (b: bool)
    ensures
        b == (text@.len() == 0),
{
    text.unicode_len() == 0
}

/// Whether a character is white space.
pub open spec fn is_space(c: char) -> bool {
    ||| '\u{9}' <= c <= '\u{d}'
    ||| c == ' '
    ||| c == '\u{85}'
    ||| c == '\u{a0}'
    ||| c == '\u{1680}'
    ||| '\u{2000}' <= c <= '\u{200a}'
    ||| c == '\u{2028}'
    ||| c == '\u{2029}'
    ||| c == '\u{202f}'
    ||| c == '\u{205f}'
    ||| c == '\u{3000}'
}

/// Whether a character is white space.
pub fn space(c: char) -> (b: bool)
    ensures
        b == is_space(c),
{
    ('\u{9}' <= c && c <= '\u{d}') || c == ' ' || c == '\u{85}' || c == '\u{a0}' || c
        == '\u{1680}' || ('\u{2000}' <= c && c <= '\u{200a}') || c == '\u{2028}' || c == '\u{2029}'
        || c == '\u{202f}' || c == '\u{205f}' || c == '\u{3000}'
}

/// The first index from `i` on with a character among `stops`; the length of the
/// text where there is none.
pub open spec fn stop_from(text: Seq<char>, stops: Seq<char>, i: int) -> int
    decreases text.len() - i,
{
    if i >= text.len() || stops.contains(text[i]) {
        i
    } else {
        stop_from(text, stops, i + 1)
    }
}

/// The first index from `i` on below `end` where white space ends.
pub open spec fn skip_space(text: Seq<char>, i: int, end: int) -> int
    decreases end - i,
{
    if i >= end || !is_space(text[i]) {
        i
    } else {
        skip_space(text, i + 1, end)
    }
}

/// The first index from `i` on below `end` where a word ends.
pub open spec fn skip_word(text: Seq<char>, i: int, end: int) -> int
    decreases end - i,
{
    if i >= end || is_space(text[i]) {
        i
    } else {
        skip_word(text, i + 1, end)
    }
}

/// The words of `text[i..end]` behind what stands in `line`, one space between
/// any two.
pub open spec fn words_on_line(text: Seq<char>, i: int, end: int, line: Seq<char>) -> Seq<char>
    decreases end - i,
{
    let start = skip_space(text, i, end);
    if i >= end || start >= end {
        line
    } else {
        proof {
            skip_bounds(text, i, end);
            skip_bounds(text, start + 1, end);
            skip_stops(text, i, end);
        }
        let stop = skip_word(text, start, end);
        let word = text.subrange(start, stop);
        words_on_line(
            text,
            stop,
            end,
            if line.len() == 0 {
                word
            } else {
                line + " "@ + word
            },
        )
    }
}

/// A text up to the first of the characters `stops`, on one line: its words with
/// one space between any two.
pub open spec fn one_line(text: Seq<char>, stops: Seq<char>) -> Seq<char> {
    words_on_line(text, 0, stop_from(text, stops, 0), Seq::empty())
}

/// What is skipped lies inside the range.
pub proof fn skip_bounds(text: Seq<char>, i: int, end: int)
    requires
        i <= end,
    ensures
        i <= skip_space(text, i, end) <= end,
        i <= skip_word(text, i, end) <= end,
    decreases end - i,
{
    if i < end {
        skip_bounds(text, i + 1, end);
    }
}

/// White space ends at a character that is none.
pub proof fn skip_stops(text: Seq<char>, i: int, end: int)
    ensures
        skip_space(text, i, end) < end ==> !is_space(text[skip_space(text, i, end)]),
    decreases end - i,
{
    if i < end {
        skip_stops(text, i + 1, end);
    }
}

/// Whether a character is one of several.
fn among(c: char, list: &Vec<char>) -> (b: bool)
    ensures
        b == list@.contains(c),
{
    let mut i: usize = 0;
    while i < list.len()
        invariant
            i <= list@.len(),
            forall|j: int| 0 <= j < i ==> list@[j] != c,
        decreases list@.len() - i,
    {
        if list[i] == c {
            return true;
        }
        i += 1;
    }
    false
}

/// A text up to the first of the characters `stops`, on one line.
pub fn one_line_text(text: &str, stops: &str) -> (line: String)
    ensures
        line@ == one_line(text@, stops@),
{
    let marks = chars_of(stops);
    let chars = chars_of(text);
    let n: usize = chars.len();
    let mut end: usize = 0;
    while end < n && !among(chars[end], &marks)
        invariant
            marks@ == stops@,
            n == chars@.len(),
            chars@ == text@,
            end <= n,
            stop_from(text@, stops@, end as int) == stop_from(text@, stops@, 0),
        decreases n - end,
    {
        end += 1;
    }
    let mut line = String::new();
    assert(line@ =~= Seq::<char>::empty());
    let mut i: usize = 0;
    while i < end
        invariant
            chars@ == text@,
            i <= end <= chars@.len(),
            end == stop_from(text@, stops@, 0),
            words_on_line(text@, i as int, end as int, line@) == words_on_line(
                text@,
                0,
                end as int,
                Seq::empty(),
            ),
        decreases end - i,
    {
        let mut start: usize = i;
        while start < end && space(chars[start])
            invariant
                chars@ == text@,
                i <= start <= end <= chars@.len(),
                skip_space(text@, start as int, end as int) == skip_space(
                    text@,
                    i as int,
                    end as int,
                ),
            decreases end - start,
        {
            start += 1;
        }
        if start >= end {
            return line;
        }
        let mut stop: usize = start;
        while stop < end && !space(chars[stop])
            invariant
                chars@ == text@,
                start <= stop <= end <= chars@.len(),
                skip_word(text@, stop as int, end as int) == skip_word(
                    text@,
                    start as int,
                    end as int,
                ),
                stop == start ==> !is_space(text@[start as int]),
            decreases end - stop,
        {
            stop += 1;
        }
        let word = text.substring_char(start, stop);
        if !is_empty(line.as_str()) {
            line.append(" ");
        }
        line.append(word);
        i = stop;
    }
    line
}

/// The last index before `end` with the character `c`; -1 where there is none.
pub open spec fn last_index(text: Seq<char>, c: char, end: int) -> int
    decreases end,
{
    if end <= 0 {
        -1
    } else if text[end - 1] == c {
        end - 1
    } else {
        last_index(text, c, end - 1)
    }
}

/// What stands behind the last `c`; the whole text where there is none.
pub open spec fn after_last(text: Seq<char>, c: char) -> Seq<char> {
    text.subrange(last_index(text, c, text.len() as int) + 1, text.len() as int)
}

/// What stands before the last `c`; the whole text where there is none.
pub open spec fn before_last(text: Seq<char>, c: char) -> Seq<char> {
    let at = last_index(text, c, text.len() as int);
    if at < 0 {
        text
    } else {
        text.subrange(0, at)
    }
}

/// The last index with the character `c`.
pub fn find_last(text: &str, c: char) -> (at: Option<usize>)
    ensures
        match at {
            Some(i) => i < text@.len() && last_index(text@, c, text@.len() as int) == i,
            None => last_index(text@, c, text@.len() as int) == -1,
        },
{
    let chars = chars_of(text);
    let mut end: usize = chars.len();
    while end > 0
        invariant
            end <= chars@.len(),
            chars@ == text@,
            last_index(text@, c, end as int) == last_index(text@, c, text@.len() as int),
        decreases end,
    {
        if chars[end - 1] == c {
            return Some(end - 1);
        }
        end -= 1;
    }
    None
}

/// What stands behind the last `c`.
pub fn after_last_text(text: &str, c: char) -> (rest: &str)
    ensures
        rest@ == after_last(text@, c),
{
    let n: usize = text.unicode_len();
    match find_last(text, c) {
        Some(i) => text.substring_char(i + 1, n),
        None => text.substring_char(0, n),
    }
}

/// What stands before the last `c`.
pub fn before_last_text(text: &str, c: char) -> (rest: &str)
    ensures
        rest@ == before_last(text@, c),
{
    match find_last(text, c) {
        Some(i) => text.substring_char(0, i),
        None => text,
    }
}

/// Whether a text ends with `suffix`.
pub open spec fn has_suffix(text: Seq<char>, suffix: Seq<char>) -> bool {
    text.len() >= suffix.len() && text.subrange(text.len() - suffix.len(), text.len() as int)
        == suffix
}

/// Whether a text starts with `prefix`.
pub open spec fn has_prefix(text: Seq<char>, prefix: Seq<char>) -> bool {
    text.len() >= prefix.len() && text.subrange(0, prefix.len() as int) == prefix
}

/// A text without `suffix` at its end, where it has it.
pub open spec fn without_suffix(text: Seq<char>, suffix: Seq<char>) -> Seq<char> {
    if has_suffix(text, suffix) {
        text.subrange(0, text.len() - suffix.len())
    } else {
        text
    }
}

/// A text without `prefix` at its start, where it has it.
pub open spec fn without_prefix(text: Seq<char>, prefix: Seq<char>) -> Seq<char> {
    if has_prefix(text, prefix) {
        text.subrange(prefix.len() as int, text.len() as int)
    } else {
        text
    }
}

/// A text with a suffix behind it is the text again without that suffix.
pub proof fn own_suffix(text: Seq<char>, suffix: Seq<char>)
    ensures
        has_suffix(text + suffix, suffix),
        without_suffix(text + suffix, suffix) == text,
{
    let all = text + suffix;
    assert(all.subrange(all.len() - suffix.len(), all.len() as int) =~= suffix);
    assert(all.subrange(0, all.len() - suffix.len()) =~= text);
}

/// A text with a suffix behind it does not end with another suffix that differs
/// from it at the `k`th character from the end.
pub proof fn other_suffix(text: Seq<char>, suffix: Seq<char>, other: Seq<char>, k: int)
    requires
        0 < k <= suffix.len(),
        k <= other.len(),
        suffix[suffix.len() - k] != other[other.len() - k],
    ensures
        !has_suffix(text + suffix, other),
{
    let all = text + suffix;
    if has_suffix(all, other) {
        let end = all.subrange(all.len() - other.len(), all.len() as int);
        assert(end[other.len() - k] == all[all.len() - k]);
        assert(all[all.len() - k] == suffix[suffix.len() - k]);
    }
}

/// Whether a text ends with `suffix`.
pub fn ends_with(text: &str, suffix: &str) -> (b: bool)
    ensures
        b == has_suffix(text@, suffix@),
{
    let n: usize = text.unicode_len();
    let m: usize = suffix.unicode_len();
    n >= m && same(text.substring_char(n - m, n), suffix)
}

/// Whether a text starts with `prefix`.
pub fn starts_with(text: &str, prefix: &str) -> (b: bool)
    ensures
        b == has_prefix(text@, prefix@),
{
    let n: usize = text.unicode_len();
    let m: usize = prefix.unicode_len();
    n >= m && same(text.substring_char(0, m), prefix)
}

/// A text without `suffix` at its end, where it has it.
pub fn strip_suffix<'a>(text: &'a str, suffix: &str) -> (rest: &'a str)
    ensures
        rest@ == without_suffix(text@, suffix@),
{
    if ends_with(text, suffix) {
        text.substring_char(0, text.unicode_len() - suffix.unicode_len())
    } else {
        text
    }
}

/// A text without `prefix` at its start, where it has it.
pub fn strip_prefix<'a>(text: &'a str, prefix: &str) -> (rest: &'a str)
    ensures
        rest@ == without_prefix(text@, prefix@),
{
    if starts_with(text, prefix) {
        text.substring_char(prefix.unicode_len(), text.unicode_len())
    } else {
        text
    }
}

/// The first index from `i` on with the character `c`; the length of the text
/// where there is none.
pub open spec fn index_from(text: Seq<char>, c: char, i: int) -> int
    decreases text.len() - i,
{
    if i >= text.len() || text[i] == c {
        i
    } else {
        index_from(text, c, i + 1)
    }
}

/// The search forward ends inside the text or at its end.
pub proof fn index_from_bounds(text: Seq<char>, c: char, i: int)
    requires
        i <= text.len(),
    ensures
        i <= index_from(text, c, i) <= text.len(),
    decreases text.len() - i,
{
    if i < text.len() {
        index_from_bounds(text, c, i + 1);
    }
}

/// The pieces between the separators `c` from index `i` on that are not empty.
pub open spec fn segments_from(text: Seq<char>, c: char, i: int) -> Seq<Seq<char>>
    decreases text.len() - i,
{
    if i < 0 || i >= text.len() {
        Seq::empty()
    } else {
        proof {
            index_from_bounds(text, c, i);
        }
        let end = index_from(text, c, i);
        if end > i {
            seq![text.subrange(i, end)] + segments_from(text, c, end)
        } else {
            segments_from(text, c, i + 1)
        }
    }
}

/// The pieces of a text between the separators `c` that are not empty.
pub open spec fn segments(text: Seq<char>, c: char) -> Seq<Seq<char>> {
    segments_from(text, c, 0)
}

/// Whether no piece is empty or holds a `c`.
pub open spec fn all_plain(pieces: Seq<Seq<char>>, c: char) -> bool {
    forall|k: int| 0 <= k < pieces.len()
        ==> (#[trigger] pieces[k]).len() > 0 && !pieces[k].contains(c)
}

/// The pieces of a text between separators are not empty and hold no separator.
pub proof fn segments_are_plain(text: Seq<char>, c: char)
    ensures
        all_plain(segments(text, c), c),
{
    segments_from_are_plain(text, c, 0);
}

proof fn segments_from_are_plain(text: Seq<char>, c: char, i: int)
    ensures
        all_plain(segments_from(text, c, i), c),
    decreases text.len() - i,
{
    if 0 <= i < text.len() {
        index_from_bounds(text, c, i);
        let end = index_from(text, c, i);
        if end > i {
            segments_from_are_plain(text, c, end);
            index_from_passes(text, c, i);
            assert(!text.subrange(i, end).contains(c));
        } else {
            segments_from_are_plain(text, c, i + 1);
        }
    }
}

proof fn index_from_passes(text: Seq<char>, c: char, i: int)
    requires
        0 <= i <= text.len(),
    ensures
        forall|k: int| i <= k < index_from(text, c, i) ==> #[trigger] text[k] != c,
    decreases text.len() - i,
{
    if i < text.len() && text[i] != c {
        index_from_passes(text, c, i + 1);
    }
}

/// The pieces of a text between the separators `c` that are not empty.
pub fn split_segments(text: &str, c: char) -> (pieces: Vec<String>)
    ensures
        views(pieces@) == segments(text@, c),
{
    let chars = chars_of(text);
    let n: usize = chars.len();
    let mut pieces: Vec<String> = Vec::new();
    proof {
        views_empty::<String>();
    }
    let mut i: usize = 0;
    while i < n
        invariant
            chars@ == text@,
            n == chars@.len(),
            i <= n,
            views(pieces@) + segments_from(text@, c, i as int) == segments(text@, c),
        decreases n - i,
    {
        let mut end: usize = i;
        while end < n && chars[end] != c
            invariant
                chars@ == text@,
                n == chars@.len(),
                i <= end <= n,
                index_from(text@, c, end as int) == index_from(text@, c, i as int),
            decreases n - end,
        {
            end += 1;
        }
        let ghost rest = segments_from(text@, c, end as int);
        let ghost before = views(pieces@);
        if end > i {
            let piece = text.substring_char(i, end).to_owned();
            put(&mut pieces, piece);
            assert(before + (seq![piece@] + rest) =~= (before + seq![piece@]) + rest);
            i = end;
        } else {
            i += 1;
        }
    }
    assert(views(pieces@) + Seq::<Seq<char>>::empty() =~= views(pieces@));
    pieces
}

/// What stands between the quotes `quote` at both ends of a text, where it has
/// them.
pub open spec fn unquoted_by(text: Seq<char>, quote: Seq<char>) -> Option<Seq<char>> {
    let rest = without_prefix(text, quote);
    if has_prefix(text, quote) && has_suffix(rest, quote) {
        Some(without_suffix(rest, quote))
    } else {
        None
    }
}

/// What stands between the quotes `quote` at both ends of a text, where it has
/// them.
pub fn strip_quotes<'a>(text: &'a str, quote: &str) -> (inner: Option<&'a str>)
    ensures
        match inner {
            Some(s) => unquoted_by(text@, quote@) == Some(s@),
            None => unquoted_by(text@, quote@) is None,
        },
{
    if starts_with(text, quote) {
        let rest = strip_prefix(text, quote);
        if ends_with(rest, quote) {
            return Some(strip_suffix(rest, quote));
        }
    }
    None
}

/// A text without the quotes around it, where it has them.
pub open spec fn unquoted(text: Seq<char>) -> Seq<char> {
    match unquoted_by(text, "\""@) {
        Some(inner) => inner,
        None => match unquoted_by(text, "'"@) {
            Some(inner) => inner,
            None => match unquoted_by(text, "`"@) {
                Some(inner) => inner,
                None => text,
            },
        },
    }
}

/// A text without the quotes around it, where it has them.
pub fn unquote(text: &str) -> (inner: &str)
    ensures
        inner@ == unquoted(text@),
{
    match strip_quotes(text, "\"") {
        Some(inner) => inner,
        None => match strip_quotes(text, "'") {
            Some(inner) => inner,
            None => match strip_quotes(text, "`") {
                Some(inner) => inner,
                None => text,
            },
        },
    }
}

/// The first index from `i` on, below `end`, with another character than `c`.
pub open spec fn skip_char(text: Seq<char>, c: char, i: int, end: int) -> int
    decreases end - i,
{
    if i >= end || text[i] != c {
        i
    } else {
        skip_char(text, c, i + 1, end)
    }
}

/// The first index down from `end`, above `start`, behind another character than
/// `c`.
pub open spec fn skip_char_back(text: Seq<char>, c: char, start: int, end: int) -> int
    decreases end - start,
{
    if end <= start || text[end - 1] != c {
        end
    } else {
        skip_char_back(text, c, start, end - 1)
    }
}

/// A text without the characters `c` at its ends.
pub open spec fn trimmed_of(text: Seq<char>, c: char) -> Seq<char> {
    let start = skip_char(text, c, 0, text.len() as int);
    text.subrange(start, skip_char_back(text, c, start, text.len() as int))
}

/// A text without the characters `c` at its ends.
pub fn trim_of(text: &str, c: char) -> (rest: &str)
    ensures
        rest@ == trimmed_of(text@, c),
{
    let chars = chars_of(text);
    let n: usize = chars.len();
    let mut start: usize = 0;
    while start < n && chars[start] == c
        invariant
            chars@ == text@,
            n == chars@.len(),
            start <= n,
            skip_char(text@, c, start as int, n as int) == skip_char(text@, c, 0, n as int),
        decreases n - start,
    {
        start += 1;
    }
    let mut end: usize = n;
    while end > start && chars[end - 1] == c
        invariant
            chars@ == text@,
            n == chars@.len(),
            start <= end <= n,
            skip_char_back(text@, c, start as int, end as int) == skip_char_back(
                text@,
                c,
                start as int,
                n as int,
            ),
        decreases end - start,
    {
        end -= 1;
    }
    text.substring_char(start, end)
}

/// The first index down from `end`, above `start`, behind a character that is no
/// white space.
pub open spec fn skip_space_back(text: Seq<char>, start: int, end: int) -> int
    decreases end - start,
{
    if end <= start || !is_space(text[end - 1]) {
        end
    } else {
        skip_space_back(text, start, end - 1)
    }
}

/// A text without the white space at its ends.
pub open spec fn trimmed(text: Seq<char>) -> Seq<char> {
    let start = skip_space(text, 0, text.len() as int);
    text.subrange(start, skip_space_back(text, start, text.len() as int))
}

/// A text without the white space at its ends.
pub fn trim(text: &str) -> (rest: &str)
    ensures
        rest@ == trimmed(text@),
{
    let chars = chars_of(text);
    let n: usize = chars.len();
    let mut start: usize = 0;
    while start < n && space(chars[start])
        invariant
            chars@ == text@,
            n == chars@.len(),
            start <= n,
            skip_space(text@, start as int, n as int) == skip_space(text@, 0, n as int),
        decreases n - start,
    {
        start += 1;
    }
    let mut end: usize = n;
    while end > start && space(chars[end - 1])
        invariant
            chars@ == text@,
            n == chars@.len(),
            start <= end <= n,
            skip_space_back(text@, start as int, end as int) == skip_space_back(
                text@,
                start as int,
                n as int,
            ),
        decreases end - start,
    {
        end -= 1;
    }
    text.substring_char(start, end)
}

/// Whether `part` stands in a text at index `i`.
pub open spec fn stands_at(text: Seq<char>, part: Seq<char>, i: int) -> bool {
    0 <= i && i + part.len() <= text.len() && text.subrange(i, i + part.len()) == part
}

/// The index behind the last `part` that starts before `end`; 0 where there is
/// none.
pub open spec fn behind_last(text: Seq<char>, part: Seq<char>, end: int) -> int
    decreases end,
{
    if end <= 0 {
        0
    } else if stands_at(text, part, end - 1) {
        end - 1 + part.len()
    } else {
        behind_last(text, part, end - 1)
    }
}

/// What stands behind the last `part`; the whole text where there is none.
pub open spec fn after_last_part(text: Seq<char>, part: Seq<char>) -> Seq<char> {
    text.subrange(behind_last(text, part, text.len() as int), text.len() as int)
}

/// What stands behind the last `part`.
pub fn after_last_part_text<'a>(text: &'a str, part: &str) -> (rest: &'a str)
    ensures
        rest@ == after_last_part(text@, part@),
{
    let n: usize = text.unicode_len();
    let m: usize = part.unicode_len();
    let mut end: usize = n;
    while end > 0
        invariant
            n == text@.len(),
            m == part@.len(),
            end <= n,
            behind_last(text@, part@, end as int) == behind_last(text@, part@, n as int),
        decreases end,
    {
        if m <= n - (end - 1) && same(text.substring_char(end - 1, end - 1 + m), part) {
            return text.substring_char(end - 1 + m, n);
        }
        end -= 1;
    }
    text.substring_char(0, n)
}

/// The name of a type without its arguments and without what it is qualified
/// with: what stands before the first `<` and behind the last `separator`.
pub open spec fn simple_name(text: Seq<char>, separator: Seq<char>) -> Seq<char> {
    trimmed(after_last_part(text.subrange(0, index_from(text, '<', 0)), separator))
}

/// The name of a type without its arguments and without what it is qualified
/// with.
pub fn simple_type_name<'a>(text: &'a str, separator: &str) -> (name: &'a str)
    ensures
        name@ == simple_name(text@, separator@),
{
    let chars = chars_of(text);
    let n: usize = chars.len();
    let mut end: usize = 0;
    while end < n && chars[end] != '<'
        invariant
            chars@ == text@,
            n == chars@.len(),
            end <= n,
            index_from(text@, '<', end as int) == index_from(text@, '<', 0),
        decreases n - end,
    {
        end += 1;
    }
    trim(after_last_part_text(text.substring_char(0, end), separator))
}

/// The first index from `i` on at which `part` stands; the length of the text
/// where there is none.
pub open spec fn part_from(text: Seq<char>, part: Seq<char>, i: int) -> int
    decreases text.len() - i,
{
    if i >= text.len() {
        text.len() as int
    } else if stands_at(text, part, i) {
        i
    } else {
        part_from(text, part, i + 1)
    }
}

/// The search forward ends inside the text or at its end.
pub proof fn part_from_bounds(text: Seq<char>, part: Seq<char>, i: int)
    requires
        i <= text.len(),
    ensures
        i <= part_from(text, part, i) <= text.len(),
    decreases text.len() - i,
{
    if i < text.len() {
        part_from_bounds(text, part, i + 1);
    }
}

/// The pieces between the separators `part` from index `i` on that are not empty.
pub open spec fn pieces_from(text: Seq<char>, part: Seq<char>, i: int) -> Seq<Seq<char>>
    decreases text.len() - i,
{
    if i < 0 || i >= text.len() || part.len() == 0 {
        Seq::empty()
    } else {
        proof {
            part_from_bounds(text, part, i);
        }
        let end = part_from(text, part, i);
        if end > i {
            seq![text.subrange(i, end)] + pieces_from(text, part, end)
        } else if i + part.len() <= text.len() {
            pieces_from(text, part, i + part.len())
        } else {
            Seq::empty()
        }
    }
}

/// The pieces of a text between the separators `part` that are not empty.
pub open spec fn pieces(text: Seq<char>, part: Seq<char>) -> Seq<Seq<char>> {
    pieces_from(text, part, 0)
}

/// The pieces of a text between the separators `part` that are not empty.
pub fn split_pieces(text: &str, part: &str) -> (list: Vec<String>)
    requires
        part@.len() > 0,
    ensures
        views(list@) == pieces(text@, part@),
{
    let n: usize = text.unicode_len();
    let m: usize = part.unicode_len();
    let mut list: Vec<String> = Vec::new();
    proof {
        views_empty::<String>();
    }
    let mut i: usize = 0;
    while i < n
        invariant
            n == text@.len(),
            m == part@.len(),
            m > 0,
            i <= n,
            views(list@) + pieces_from(text@, part@, i as int) == pieces(text@, part@),
        decreases n - i,
    {
        let mut end: usize = i;
        while end < n && !(m <= n - end && same(text.substring_char(end, end + m), part))
            invariant
                n == text@.len(),
                m == part@.len(),
                i <= end <= n,
                part_from(text@, part@, end as int) == part_from(text@, part@, i as int),
            decreases n - end,
        {
            end += 1;
        }
        let ghost rest = pieces_from(text@, part@, end as int);
        let ghost before = views(list@);
        if end > i {
            let piece = text.substring_char(i, end).to_owned();
            put(&mut list, piece);
            assert(before + (seq![piece@] + rest) =~= (before + seq![piece@]) + rest);
            i = end;
        } else {
            i += m;
        }
    }
    assert(views(list@) + Seq::<Seq<char>>::empty() =~= views(list@));
    list
}

/// Whether `word` is one of the words of a text from index `i` on.
pub open spec fn word_from(text: Seq<char>, word: Seq<char>, i: int) -> bool
    decreases text.len() - i,
{
    let end = text.len() as int;
    let start = skip_space(text, i, end);
    if i >= end || start >= end {
        false
    } else {
        proof {
            skip_bounds(text, i, end);
            skip_bounds(text, start + 1, end);
            skip_stops(text, i, end);
        }
        let stop = skip_word(text, start, end);
        text.subrange(start, stop) == word || word_from(text, word, stop)
    }
}

/// Whether `word` is one of the words of a text.
pub fn has_word(text: &str, word: &str) -> (b: bool)
    ensures
        b == word_from(text@, word@, 0),
{
    let chars = chars_of(text);
    let n: usize = chars.len();
    let mut i: usize = 0;
    while i < n
        invariant
            chars@ == text@,
            n == chars@.len(),
            i <= n,
            word_from(text@, word@, i as int) == word_from(text@, word@, 0),
        decreases n - i,
    {
        let mut start: usize = i;
        while start < n && space(chars[start])
            invariant
                chars@ == text@,
                n == chars@.len(),
                i <= start <= n,
                skip_space(text@, start as int, n as int) == skip_space(text@, i as int, n as int),
            decreases n - start,
        {
            start += 1;
        }
        if start >= n {
            return false;
        }
        let mut stop: usize = start;
        while stop < n && !space(chars[stop])
            invariant
                chars@ == text@,
                n == chars@.len(),
                start <= stop <= n,
                skip_word(text@, stop as int, n as int) == skip_word(
                    text@,
                    start as int,
                    n as int,
                ),
                stop == start ==> !is_space(text@[start as int]),
            decreases n - stop,
        {
            stop += 1;
        }
        if same(text.substring_char(start, stop), word) {
            return true;
        }
        i = stop;
    }
    false
}

/// Whether a text holds the character `c`.
pub fn contains_char(text: &str, c: char) -> (b: bool)
    ensures
        b == text@.contains(c),
{
    among(c, &chars_of(text))
}

/// Whether a character that is not an ASCII one is an upper case letter.
pub uninterp spec fn upper_case(c: char) -> bool;

/// Whether a character is an upper case letter.
pub open spec fn is_upper(c: char) -> bool {
    if (c as u32) < 128 {
        'A' <= c <= 'Z'
    } else {
        upper_case(c)
    }
}

/// `char::is_uppercase`: whether the character has the Unicode property
/// `Uppercase`. Of the ASCII characters, those from `A` to `Z` have it.
#[verifier::external_body]
fn has_upper_case(c: char) -> (b: bool)
    ensures
        b == (if (c as u32) < 128 {
            'A' <= c <= 'Z'
        } else {
            upper_case(c)
        }),
{
    c.is_uppercase()
}

/// Whether a text starts with an upper case letter.
pub open spec fn starts_upper(text: Seq<char>) -> bool {
    text.len() > 0 && is_upper(text[0])
}

/// Whether a text starts with an upper case letter.
pub fn is_capitalized(text: &str) -> (b: bool)
    ensures
        b == starts_upper(text@),
{
    !is_empty(text) && has_upper_case(text.get_char(0))
}

} // verus!
