//! What texts are told in one line: signatures, words and identities.

use crate::symbol::{rendered_steps, scip_text, DescriptorView};
use crate::text::{
    is_space, one_line, skip_space, skip_space_back, skip_word, stop_from, trimmed, word_from,
    words_on_line,
};
use super::texts::join;
use vstd::prelude::*;

verus! {

// ── Words ────────────────────────────────────────────────────────────────────

/// Whether a text is white space.
pub open spec fn is_blank(text: Seq<char>) -> bool {
    forall|k: int| 0 <= k < text.len() ==> is_space(#[trigger] text[k])
}

/// Whether a text is a word: it is not empty and holds no white space.
pub open spec fn is_word(text: Seq<char>) -> bool {
    text.len() > 0 && forall|k: int| 0 <= k < text.len() ==> !is_space(#[trigger] text[k])
}

/// Whether `text[..i]` is white space and `text[i..j]` the first word behind it.
pub open spec fn opens_with(text: Seq<char>, i: int, j: int) -> bool {
    &&& 0 <= i < j <= text.len()
    &&& is_blank(text.subrange(0, i))
    &&& is_word(text.subrange(i, j))
    &&& j < text.len() ==> is_space(text[j])
}

/// Whether a text consists of words, with white space around them.
pub open spec fn consists_of(text: Seq<char>, words: Seq<Seq<char>>) -> bool
    decreases words.len(),
{
    if words.len() == 0 {
        is_blank(text)
    } else {
        exists|i: int, j: int| #[trigger] opens_with(text, i, j) && words[0] == text.subrange(i, j)
            && consists_of(text.subrange(j, text.len() as int), words.skip(1))
    }
}

proof fn space_is_skipped(text: Seq<char>, i: int, mid: int, end: int)
    requires
        0 <= i <= mid <= end <= text.len(),
        forall|k: int| i <= k < mid ==> is_space(#[trigger] text[k]),
        mid < end ==> !is_space(text[mid]),
    ensures
        skip_space(text, i, end) == mid,
    decreases mid - i,
{
    if i < mid {
        space_is_skipped(text, i + 1, mid, end);
    }
}

proof fn word_is_skipped(text: Seq<char>, i: int, mid: int, end: int)
    requires
        0 <= i <= mid <= end <= text.len(),
        forall|k: int| i <= k < mid ==> !is_space(#[trigger] text[k]),
        mid < end ==> is_space(text[mid]),
    ensures
        skip_word(text, i, end) == mid,
    decreases mid - i,
{
    if i < mid {
        word_is_skipped(text, i + 1, mid, end);
    }
}

proof fn first_word_is_found(text: Seq<char>, lo: int, end: int, i: int, j: int)
    requires
        0 <= lo <= end <= text.len(),
        opens_with(text.subrange(lo, end), i, j),
    ensures
        skip_space(text, lo, end) == lo + i,
        skip_word(text, lo + i, end) == lo + j,
        lo + i < end,
        text.subrange(lo + i, lo + j) == text.subrange(lo, end).subrange(i, j),
        text.subrange(lo + j, end) == text.subrange(lo, end).subrange(j, end - lo),
{
    let s = text.subrange(lo, end);
    assert forall|k: int| lo <= k < lo + i implies is_space(#[trigger] text[k]) by {
        assert(s.subrange(0, i)[k - lo] == text[k]);
    }
    assert forall|k: int| lo + i <= k < lo + j implies !is_space(#[trigger] text[k]) by {
        assert(s.subrange(i, j)[k - lo - i] == text[k]);
    }
    assert(j < s.len() ==> s[j] == text[lo + j]);
    space_is_skipped(text, lo, lo + i, end);
    word_is_skipped(text, lo + i, lo + j, end);
    assert(text.subrange(lo + i, lo + j) =~= s.subrange(i, j));
    assert(text.subrange(lo + j, end) =~= s.subrange(j, end - lo));
}

proof fn words_are_joined(
    text: Seq<char>,
    lo: int,
    end: int,
    line: Seq<char>,
    words: Seq<Seq<char>>,
)
    requires
        0 <= lo <= end <= text.len(),
        consists_of(text.subrange(lo, end), words),
    ensures
        words_on_line(text, lo, end, line) == (if words.len() == 0 {
            line
        } else if line.len() == 0 {
            join(words, ' ')
        } else {
            line + seq![' '] + join(words, ' ')
        }),
    decreases words.len(),
{
    let s = text.subrange(lo, end);
    reveal_strlit(" ");
    assert(" "@ =~= seq![' ']);
    if words.len() == 0 {
        assert forall|k: int| lo <= k < end implies is_space(#[trigger] text[k]) by {
            assert(s[k - lo] == text[k]);
        }
        space_is_skipped(text, lo, end, end);
    } else {
        let (i, j) = choose|i: int, j: int| #[trigger]
            opens_with(s, i, j) && words[0] == s.subrange(i, j) && consists_of(
                s.subrange(j, s.len() as int),
                words.skip(1),
            );
        first_word_is_found(text, lo, end, i, j);
        let rest = words.skip(1);
        let next = if line.len() == 0 {
            words[0]
        } else {
            line + seq![' '] + words[0]
        };
        words_are_joined(text, lo + j, end, next, rest);
        assert(next.len() > 0);
        if rest.len() == 0 {
            assert(join(words, ' ') == words[0]);
        } else {
            assert(join(words, ' ') == words[0] + seq![' '] + join(rest, ' '));
            if line.len() > 0 {
                assert(next + seq![' '] + join(rest, ' ') =~= line + seq![' '] + join(words, ' '));
            }
        }
    }
}

proof fn stop_is_found(text: Seq<char>, stops: Seq<char>, i: int, at: int)
    requires
        0 <= i <= at <= text.len(),
        forall|k: int| i <= k < at ==> !stops.contains(#[trigger] text[k]),
        at < text.len() ==> stops.contains(text[at]),
    ensures
        stop_from(text, stops, i) == at,
    decreases at - i,
{
    if i < at {
        stop_is_found(text, stops, i + 1, at);
    }
}

/// A text is told in one line by its words, one space between any two, up to where
/// it stops.
pub proof fn words_stand_in_one_line(
    head: Seq<char>,
    tail: Seq<char>,
    stops: Seq<char>,
    words: Seq<Seq<char>>,
)
    requires
        consists_of(head, words),
        forall|k: int| 0 <= k < head.len() ==> !stops.contains(#[trigger] head[k]),
        tail.len() > 0 ==> stops.contains(tail[0]),
    ensures
        one_line(head + tail, stops) == join(words, ' '),
{
    let text = head + tail;
    assert forall|k: int| 0 <= k < head.len() implies !stops.contains(#[trigger] text[k]) by {
        assert(text[k] == head[k]);
    }
    assert(tail.len() > 0 ==> text[head.len() as int] == tail[0]);
    stop_is_found(text, stops, 0, head.len() as int);
    assert(text.subrange(0, head.len() as int) =~= head);
    words_are_joined(text, 0, head.len() as int, Seq::empty(), words);
    assert(words.len() == 0 ==> join(words, ' ') =~= Seq::<char>::empty());
}

proof fn words_are_found(text: Seq<char>, lo: int, words: Seq<Seq<char>>, word: Seq<char>)
    requires
        0 <= lo <= text.len(),
        consists_of(text.subrange(lo, text.len() as int), words),
    ensures
        word_from(text, word, lo) == words.contains(word),
    decreases words.len(),
{
    let end = text.len() as int;
    let s = text.subrange(lo, end);
    if words.len() == 0 {
        assert forall|k: int| lo <= k < end implies is_space(#[trigger] text[k]) by {
            assert(s[k - lo] == text[k]);
        }
        space_is_skipped(text, lo, end, end);
    } else {
        let (i, j) = choose|i: int, j: int| #[trigger]
            opens_with(s, i, j) && words[0] == s.subrange(i, j) && consists_of(
                s.subrange(j, s.len() as int),
                words.skip(1),
            );
        first_word_is_found(text, lo, end, i, j);
        let rest = words.skip(1);
        words_are_found(text, lo + j, rest, word);
        if rest.contains(word) {
            let k = choose|k: int| 0 <= k < rest.len() && rest[k] == word;
            assert(words[k + 1] == word);
        }
        if words.contains(word) && words[0] != word {
            let k = choose|k: int| 0 <= k < words.len() && words[k] == word;
            assert(rest[k - 1] == word);
        }
    }
}

/// A text has the words that it consists of, and no others.
pub proof fn words_are_those_between_spaces(
    text: Seq<char>,
    words: Seq<Seq<char>>,
    word: Seq<char>,
)
    requires
        consists_of(text, words),
    ensures
        word_from(text, word, 0) == words.contains(word),
{
    assert(text.subrange(0, text.len() as int) =~= text);
    words_are_found(text, 0, words, word);
}

// ── White space at the ends ──────────────────────────────────────────────────

proof fn space_is_skipped_back(text: Seq<char>, start: int, mid: int, end: int)
    requires
        0 <= start < mid <= end <= text.len(),
        forall|k: int| mid <= k < end ==> is_space(#[trigger] text[k]),
        !is_space(text[mid - 1]),
    ensures
        skip_space_back(text, start, end) == mid,
    decreases end - mid,
{
    if mid < end {
        space_is_skipped_back(text, start, mid, end - 1);
    }
}

/// White space comes off the ends of a text, and nothing else does.
pub proof fn space_comes_off(before: Seq<char>, text: Seq<char>, behind: Seq<char>)
    requires
        is_blank(before),
        is_blank(behind),
        text.len() > 0,
        !is_space(text[0]),
        !is_space(text[text.len() - 1]),
    ensures
        trimmed(before + text + behind) == text,
{
    let all = before + text + behind;
    let lo = before.len() as int;
    let hi = lo + text.len();
    assert forall|k: int| 0 <= k < lo implies is_space(#[trigger] all[k]) by {
        assert(all[k] == before[k]);
    }
    assert forall|k: int| hi <= k < all.len() implies is_space(#[trigger] all[k]) by {
        assert(all[k] == behind[k - hi]);
    }
    assert(all[lo] == text[0]);
    assert(all[hi - 1] == text[text.len() - 1]);
    space_is_skipped(all, 0, lo, all.len() as int);
    space_is_skipped_back(all, lo, hi, all.len() as int);
    assert(all.subrange(lo, hi) =~= text);
}

// ── Identities ───────────────────────────────────────────────────────────────

/// The mark that a step into a namespace, a type, a term, a method or a macro ends
/// with.
pub open spec fn mark_of(step: DescriptorView) -> char {
    match step {
        DescriptorView::Namespace(_) => '/',
        DescriptorView::Type(_) => '#',
        DescriptorView::Macro(_) => '!',
        _ => '.',
    }
}

/// The text of an identity grows by each step: by the name and the mark of the
/// step, and for a method by the brackets around what tells it from others.
pub proof fn steps_are_told_by_name_and_mark(steps: Seq<DescriptorView>, step: DescriptorView)
    ensures
        scip_text(steps.push(step)) == scip_text(steps) + (match step {
            DescriptorView::Method { name, disambiguator } => name + seq!['('] + disambiguator
                + seq![')', mark_of(step)],
            _ => step.name() + seq![mark_of(step)],
        }),
{
    reveal_strlit("/");
    reveal_strlit("#");
    reveal_strlit(".");
    reveal_strlit("!");
    reveal_strlit("(");
    reveal_strlit(").");
    assert("/"@ =~= seq!['/']);
    assert("#"@ =~= seq!['#']);
    assert("."@ =~= seq!['.']);
    assert("!"@ =~= seq!['!']);
    assert("("@ =~= seq!['(']);
    assert(")."@ =~= seq![')', '.']);
    let more = steps.push(step);
    let n = steps.len() as int;
    first_steps_stay(steps, step, n);
    let end = match step {
        DescriptorView::Method { name, disambiguator } => name + seq!['('] + disambiguator + seq![
            ')',
            mark_of(step),
        ],
        _ => step.name() + seq![mark_of(step)],
    };
    assert(step.rendered() =~= end);
    assert(rendered_steps(more, n + 1) == rendered_steps(more, n) + step.rendered());
    let front = "codegraph . . . "@;
    assert(front + (rendered_steps(steps, n) + end) =~= (front + rendered_steps(steps, n)) + end);
}

proof fn first_steps_stay(steps: Seq<DescriptorView>, step: DescriptorView, n: int)
    requires
        n <= steps.len(),
    ensures
        rendered_steps(steps.push(step), n) == rendered_steps(steps, n),
    decreases n,
{
    if n > 0 {
        first_steps_stay(steps, step, n - 1);
        assert(steps.push(step)[n - 1] == steps[n - 1]);
    }
}

} // verus!
