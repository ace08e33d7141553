//! What the calls of a file tell of the matches that they are read from.

use crate::extract::{
    call_of, calls, calls_marked, calls_of, calls_qualified, capture_from, capture_text, captured,
    match_from, receiver_marked, self_marked,
};
use crate::graph::types::{FileFactsView, OccurrenceView, RefRole, ReferenceView};
use crate::parse::CaptureView;
use crate::text::text_between;
use super::{in_either, long_enough, reported};
use vstd::prelude::*;

verus! {

/// Whether `c` is the first capture of a match under a name.
pub open spec fn captures(found: Seq<CaptureView>, name: Seq<char>, c: CaptureView) -> bool {
    exists|k: int|
        0 <= k < found.len() && #[trigger] found[k] == c && c.name == name && forall|e: int|
            0 <= e < k ==> (#[trigger] found[e]).name != name
}

/// Whether a match has no capture under a name.
pub open spec fn lacks(found: Seq<CaptureView>, name: Seq<char>) -> bool {
    forall|e: int| 0 <= e < found.len() ==> (#[trigger] found[e]).name != name
}

/// Whether one of the matches has its callee at a byte.
pub open spec fn calls_at(found: Seq<Seq<CaptureView>>, byte: int) -> bool {
    exists|k: int, c: CaptureView|
        0 <= k < found.len() && #[trigger] captures(found[k], "callee"@, c) && c.start == byte
}

/// Whether a file calls a name where a capture starts.
pub open spec fn calls_name(
    f: FileFactsView,
    c: CaptureView,
    name: Seq<char>,
    qualifier: Option<Seq<char>>,
    on_itself: bool,
) -> bool {
    exists|k: int|
        0 <= k < f.references.len() && (#[trigger] f.references[k]).name == name
            && f.references[k].role == RefRole::Call && f.references[k].qualifier == qualifier
            && f.references[k].self_receiver == on_itself && f.references[k].occ == (
        OccurrenceView { file: f.file, row: c.row, column: c.column, byte: c.start })
}

proof fn first_is_captured(found: Seq<CaptureView>, i: int, name: Seq<char>)
    requires
        0 <= i <= found.len(),
        forall|e: int| 0 <= e < i ==> (#[trigger] found[e]).name != name,
    ensures
        match capture_from(found, i, name) {
            Some(c) => captures(found, name, c),
            None => lacks(found, name),
        },
    decreases found.len() - i,
{
    if i < found.len() && found[i].name != name {
        first_is_captured(found, i + 1, name);
    }
}

pub(crate) proof fn capture_is_first(found: Seq<CaptureView>, name: Seq<char>, c: CaptureView)
    requires
        captures(found, name, c),
    ensures
        capture_from(found, 0, name) == Some(c),
{
    first_is_captured(found, 0, name);
    let k = choose|k: int|
        0 <= k < found.len() && #[trigger] found[k] == c && c.name == name && forall|e: int|
            0 <= e < k ==> (#[trigger] found[e]).name != name;
    if let Some(d) = capture_from(found, 0, name) {
        let j = choose|j: int|
            0 <= j < found.len() && #[trigger] found[j] == d && d.name == name && forall|e: int|
                0 <= e < j ==> (#[trigger] found[e]).name != name;
        if j < k {
            assert(found[j].name != name);
        }
        if k < j {
            assert(found[k].name != name);
        }
    }
}

pub(crate) proof fn lack_is_none(found: Seq<CaptureView>, name: Seq<char>)
    requires
        lacks(found, name),
    ensures
        capture_from(found, 0, name) is None,
{
    first_is_captured(found, 0, name);
}

proof fn call_is_among(
    source: Seq<char>,
    file: Seq<char>,
    found: Seq<Seq<CaptureView>>,
    n: int,
    k: int,
    r: ReferenceView,
)
    requires
        0 <= k < n <= found.len(),
        call_of(source, file, found[k]).contains(r),
    ensures
        calls_of(source, file, found, n).contains(r),
    decreases n,
{
    if k < n - 1 {
        call_is_among(source, file, found, n - 1, k, r);
    }
    in_either(calls_of(source, file, found, n - 1), call_of(source, file, found[n - 1]), r);
}

/// The call that a match reports.
pub(crate) open spec fn plain_call(
    source: Seq<char>,
    file: Seq<char>,
    found: Seq<CaptureView>,
) -> ReferenceView {
    call_of(source, file, found)[0]
}

pub(crate) proof fn call_is_found(
    source: Seq<char>,
    file: Seq<char>,
    found: Seq<Seq<CaptureView>>,
    k: int,
    c: CaptureView,
)
    requires
        0 <= k < found.len(),
        captures(found[k], "callee"@, c),
        long_enough(text_between(source, c.start, c.end)),
    ensures
        calls(source, file, found).contains(plain_call(source, file, found[k])),
        plain_call(source, file, found[k]).name == text_between(source, c.start, c.end),
        plain_call(source, file, found[k]).role == RefRole::Call,
        !plain_call(source, file, found[k]).self_receiver,
        plain_call(source, file, found[k]).occ == (OccurrenceView {
            file,
            row: c.row,
            column: c.column,
            byte: c.start,
        }),
        forall|q: CaptureView| #[trigger]
            captures(found[k], "qualifier"@, q) ==> plain_call(source, file, found[k]).qualifier
                == Some(text_between(source, q.start, q.end)),
        lacks(found[k], "qualifier"@) ==> plain_call(source, file, found[k]).qualifier is None,
{
    capture_is_first(found[k], "callee"@, c);
    let r = plain_call(source, file, found[k]);
    assert(call_of(source, file, found[k]).contains(r));
    call_is_among(source, file, found, found.len() as int, k, r);
    assert forall|q: CaptureView| #[trigger] captures(found[k], "qualifier"@, q) implies r.qualifier
        == Some(text_between(source, q.start, q.end)) by {
        capture_is_first(found[k], "qualifier"@, q);
    }
    if lacks(found[k], "qualifier"@) {
        lack_is_none(found[k], "qualifier"@);
    }
}

proof fn match_is_found(found: Seq<Seq<CaptureView>>, i: int, byte: int)
    requires
        0 <= i <= found.len(),
    ensures
        match match_from(found, i, byte) {
            Some(m) => exists|k: int, c: CaptureView|
                i <= k < found.len() && found[k] == m && #[trigger] captures(
                    found[k],
                    "callee"@,
                    c,
                ) && c.start == byte,
            None => forall|k: int, c: CaptureView|
                i <= k < found.len() && #[trigger] captures(found[k], "callee"@, c) ==> c.start
                    != byte,
        },
    decreases found.len() - i,
{
    if i < found.len() {
        first_is_captured(found[i], 0, "callee"@);
        match_is_found(found, i + 1, byte);
        if let Some(c) = capture_from(found[i], 0, "callee"@) {
            if c.start == byte {
                assert(captures(found[i], "callee"@, c));
            }
        }
        assert forall|c: CaptureView| #[trigger] captures(found[i], "callee"@, c) implies capture_from(
            found[i],
            0,
            "callee"@,
        ) == Some(c) by {
            capture_is_first(found[i], "callee"@, c);
        }
    }
}

pub(crate) proof fn mark_is_found(found: Seq<Seq<CaptureView>>, byte: int)
    ensures
        match_from(found, 0, byte) is Some <==> calls_at(found, byte),
{
    match_is_found(found, 0, byte);
}

pub(crate) proof fn marked_call_is_found(
    source: Seq<char>,
    file: Seq<char>,
    found: Seq<Seq<CaptureView>>,
    on_self: Seq<Seq<CaptureView>>,
    r: ReferenceView,
)
    requires
        calls(source, file, found).contains(r),
    ensures
        calls_marked(source, file, found, on_self).contains(self_marked(on_self, r)),
{
    let plain = calls(source, file, found);
    let k = choose|k: int| 0 <= k < plain.len() && plain[k] == r;
    assert(calls_marked(source, file, found, on_self)[k] == self_marked(on_self, r));
}

pub(crate) proof fn qualified_call_is_found(
    source: Seq<char>,
    file: Seq<char>,
    found: Seq<Seq<CaptureView>>,
    on_self: Seq<Seq<CaptureView>>,
    on_receiver: Seq<Seq<CaptureView>>,
    r: ReferenceView,
)
    requires
        calls(source, file, found).contains(r),
    ensures
        calls_qualified(source, file, found, on_self, on_receiver).contains(
            receiver_marked(source, on_receiver, self_marked(on_self, r)),
        ),
{
    marked_call_is_found(source, file, found, on_self, r);
    let marked = calls_marked(source, file, found, on_self);
    let k = choose|k: int| 0 <= k < marked.len() && marked[k] == self_marked(on_self, r);
    assert(calls_qualified(source, file, found, on_self, on_receiver)[k] == receiver_marked(
        source,
        on_receiver,
        self_marked(on_self, r),
    ));
}

pub(crate) proof fn receiver_is_found(
    source: Seq<char>,
    on_receiver: Seq<Seq<CaptureView>>,
    m: int,
    c: CaptureView,
    v: CaptureView,
)
    requires
        0 <= m < on_receiver.len(),
        captures(on_receiver[m], "callee"@, c),
        captures(on_receiver[m], "receiver"@, v),
        forall|e: int, d: CaptureView|
            0 <= e < m && #[trigger] captures(on_receiver[e], "callee"@, d) ==> d.start != c.start,
    ensures
        match_from(on_receiver, 0, c.start) == Some(on_receiver[m]),
        captured(source, on_receiver[m], "receiver"@) == Some(text_between(source, v.start, v.end)),
{
    capture_is_first(on_receiver[m], "receiver"@, v);
    first_match(on_receiver, 0, m, c);
}

proof fn first_match(found: Seq<Seq<CaptureView>>, i: int, m: int, c: CaptureView)
    requires
        0 <= i <= m < found.len(),
        captures(found[m], "callee"@, c),
        forall|e: int, d: CaptureView|
            0 <= e < m && #[trigger] captures(found[e], "callee"@, d) ==> d.start != c.start,
    ensures
        match_from(found, i, c.start) == Some(found[m]),
    decreases m - i,
{
    if i == m {
        capture_is_first(found[m], "callee"@, c);
    } else {
        first_is_captured(found[i], 0, "callee"@);
        first_match(found, i + 1, m, c);
    }
}

} // verus!
