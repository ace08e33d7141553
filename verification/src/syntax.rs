//! Syntax trees as plain values: the nodes of a parsed file in document order,
//! each with what the parser says of it, the index just past its subtree and
//! the index of its parent.

use crate::items::views;
use crate::text::{opt_text, same, slice_text, text_between};
use vstd::prelude::*;

verus! {

/// What the parser says of one node.
pub struct NodeInfo {
    pub kind: String,
    pub field: Option<String>,
    pub named: bool,
    pub start: usize,
    pub end: usize,
    pub row: usize,
    pub column: usize,
    pub depth: usize,
}

/// The contents of a [`NodeInfo`].
pub struct NodeLabel {
    pub kind: Seq<char>,
    pub field: Option<Seq<char>>,
    pub named: bool,
    pub start: int,
    pub end: int,
    pub row: int,
    pub column: int,
    pub depth: int,
}

/// An optional index as an integer.
pub open spec fn opt_index(index: Option<usize>) -> Option<int> {
    match index {
        Some(i) => Some(i as int),
        None => None,
    }
}

impl View for NodeInfo {
    type V = NodeLabel;

    open spec fn view(&self) -> NodeLabel {
        NodeLabel {
            kind: self.kind@,
            field: opt_text(self.field),
            named: self.named,
            start: self.start as int,
            end: self.end as int,
            row: self.row as int,
            column: self.column as int,
            depth: self.depth as int,
        }
    }
}

/// One node of a [`Syntax`]: its label, the index just past its subtree and the
/// index of its parent.
pub struct NodeView {
    pub label: NodeLabel,
    pub last: int,
    pub parent: Option<int>,
}

/// The contents of a [`SyntaxTree`]: the source text and the nodes in document
/// order. The first node is the root.
pub struct Syntax {
    pub source: Seq<char>,
    pub nodes: Seq<NodeView>,
}

/// The first index from `from` on whose node stands at depth `depth` or above;
/// the number of nodes where there is none.
pub open spec fn next_at_depth(labels: Seq<NodeLabel>, from: int, depth: int) -> int
    decreases labels.len() - from,
{
    if from >= labels.len() {
        labels.len() as int
    } else if labels[from].depth <= depth {
        from
    } else {
        next_at_depth(labels, from + 1, depth)
    }
}

/// The last index up to `from` whose node stands above depth `depth`.
pub open spec fn nearest_above(labels: Seq<NodeLabel>, from: int, depth: int) -> Option<int>
    decreases from + 1,
{
    if from < 0 {
        None
    } else if labels[from].depth < depth {
        Some(from)
    } else {
        nearest_above(labels, from - 1, depth)
    }
}

/// The tree that a list of labels in document order describes.
pub open spec fn assemble(source: Seq<char>, labels: Seq<NodeLabel>) -> Syntax {
    Syntax {
        source,
        nodes: Seq::new(
            labels.len(),
            |i: int|
                NodeView {
                    label: labels[i],
                    last: next_at_depth(labels, i + 1, labels[i].depth),
                    parent: nearest_above(labels, i - 1, labels[i].depth),
                },
        ),
    }
}

impl Syntax {
    /// The number of nodes from index `i` on.
    pub open spec fn left(self, i: int) -> nat {
        if i < self.nodes.len() {
            (self.nodes.len() - i) as nat
        } else {
            0
        }
    }

    /// The number of nodes.
    pub open spec fn len(self) -> int {
        self.nodes.len() as int
    }

    /// Whether `i` is the index of a node.
    pub open spec fn has(self, i: int) -> bool {
        0 <= i < self.nodes.len()
    }

    /// The index just past the subtree of node `i`.
    pub open spec fn after(self, i: int) -> int {
        if self.has(i) && i < self.nodes[i].last <= self.len() {
            self.nodes[i].last
        } else {
            i + 1
        }
    }

    /// The sibling that follows node `lo` in `lo..hi`; `hi` where there is none.
    pub open spec fn next(self, lo: int, hi: int) -> int {
        if self.after(lo) <= hi {
            self.after(lo)
        } else {
            hi
        }
    }

    /// The kind of node `i`.
    pub open spec fn kind(self, i: int) -> Seq<char> {
        if self.has(i) {
            self.nodes[i].label.kind
        } else {
            Seq::empty()
        }
    }

    /// Whether node `i` stands under the field `field` of its parent.
    pub open spec fn in_field(self, i: int, field: Seq<char>) -> bool {
        self.has(i) && self.nodes[i].label.field == Some(field)
    }

    /// Whether node `i` is a named node.
    pub open spec fn named(self, i: int) -> bool {
        self.has(i) && self.nodes[i].label.named
    }

    /// The byte at which node `i` starts.
    pub open spec fn start(self, i: int) -> int {
        if self.has(i) {
            self.nodes[i].label.start
        } else {
            0
        }
    }

    /// The byte just past node `i`.
    pub open spec fn end(self, i: int) -> int {
        if self.has(i) {
            self.nodes[i].label.end
        } else {
            0
        }
    }

    /// The line of node `i`, counted from zero.
    pub open spec fn row(self, i: int) -> int {
        if self.has(i) {
            self.nodes[i].label.row
        } else {
            0
        }
    }

    /// The column of node `i`, counted from zero.
    pub open spec fn column(self, i: int) -> int {
        if self.has(i) {
            self.nodes[i].label.column
        } else {
            0
        }
    }

    /// The parent of node `i`.
    pub open spec fn parent(self, i: int) -> Option<int> {
        if self.has(i) {
            self.nodes[i].parent
        } else {
            None
        }
    }

    /// The source text of node `i`.
    pub open spec fn text(self, i: int) -> Seq<char> {
        text_between(self.source, self.start(i), self.end(i))
    }

    /// The first of the siblings `lo..hi` that stands under the field `field`.
    pub open spec fn first_in_field(self, lo: int, hi: int, field: Seq<char>) -> Option<int>
        decreases hi - lo,
    {
        if lo >= hi {
            None
        } else if self.in_field(lo, field) {
            Some(lo)
        } else {
            self.first_in_field(self.next(lo, hi), hi, field)
        }
    }

    /// The child of node `i` under the field `field`.
    pub open spec fn child(self, i: int, field: Seq<char>) -> Option<int> {
        self.first_in_field(i + 1, self.after(i), field)
    }

    /// The first of the siblings `lo..hi` of the kind `kind`.
    pub open spec fn first_of_kind(self, lo: int, hi: int, kind: Seq<char>) -> Option<int>
        decreases hi - lo,
    {
        if lo >= hi {
            None
        } else if self.kind(lo) == kind {
            Some(lo)
        } else {
            self.first_of_kind(self.next(lo, hi), hi, kind)
        }
    }

    /// The first child of node `i` of the kind `kind`.
    pub open spec fn child_of_kind(self, i: int, kind: Seq<char>) -> Option<int> {
        self.first_of_kind(i + 1, self.after(i), kind)
    }

    /// The first named node of the siblings `lo..hi`.
    pub open spec fn first_named(self, lo: int, hi: int) -> Option<int>
        decreases hi - lo,
    {
        if lo >= hi {
            None
        } else if self.named(lo) {
            Some(lo)
        } else {
            self.first_named(self.next(lo, hi), hi)
        }
    }

    /// The first named child of node `i`.
    pub open spec fn named_child(self, i: int) -> Option<int> {
        self.first_named(i + 1, self.after(i))
    }

    /// The named node with the number `k` among the siblings `lo..hi`.
    pub open spec fn nth_named(self, lo: int, hi: int, k: int) -> Option<int>
        decreases hi - lo,
    {
        if lo >= hi {
            None
        } else if !self.named(lo) {
            self.nth_named(self.next(lo, hi), hi, k)
        } else if k <= 0 {
            Some(lo)
        } else {
            self.nth_named(self.next(lo, hi), hi, k - 1)
        }
    }

    /// The first named node of the siblings `lo..hi` of the kind `kind`.
    pub open spec fn first_named_of_kind(self, lo: int, hi: int, kind: Seq<char>) -> Option<int>
        decreases hi - lo,
    {
        if lo >= hi {
            None
        } else if self.named(lo) && self.kind(lo) == kind {
            Some(lo)
        } else {
            self.first_named_of_kind(self.next(lo, hi), hi, kind)
        }
    }

    /// The first named child of node `i` of the kind `kind`.
    pub open spec fn named_child_of_kind(self, i: int, kind: Seq<char>) -> Option<int> {
        self.first_named_of_kind(i + 1, self.after(i), kind)
    }

    /// Whether each subtree lies inside those that it starts in.
    pub open spec fn nested(self) -> bool {
        forall|i: int, j: int|
            self.has(i) && i <= j < #[trigger] self.after(i) ==> #[trigger] self.after(j)
                <= self.after(i)
    }

    /// Whether the subtrees that start in `lo..hi` lie in it.
    pub open spec fn closed_range(self, lo: int, hi: int) -> bool {
        &&& 0 <= lo
        &&& hi <= self.len()
        &&& forall|j: int| lo <= j < hi ==> #[trigger] self.after(j) <= hi
    }

    /// Whether the way from node `lo` to the sibling that follows it, and on to the
    /// next, comes to node `c` before `hi`.
    pub open spec fn reaches(self, lo: int, hi: int, c: int) -> bool
        decreases hi - lo,
    {
        lo < hi && (lo == c || self.reaches(self.next(lo, hi), hi, c))
    }

    /// Whether node `c` is a child of node `i`.
    pub open spec fn has_child(self, i: int, c: int) -> bool {
        self.has(i) && self.reaches(i + 1, self.after(i), c)
    }

    /// Whether each child has the node that it is a child of as its parent.
    pub open spec fn linked(self) -> bool {
        forall|i: int, c: int| #[trigger] self.has_child(i, c) ==> self.parent(c) == Some(i)
    }

    /// The text of the child of node `i` under the field `field`.
    pub open spec fn field_text(self, i: int, field: Seq<char>) -> Option<Seq<char>> {
        match self.child(i, field) {
            Some(c) => Some(self.text(c)),
            None => None,
        }
    }
}

proof fn first_in_field_bounds(t: Syntax, lo: int, hi: int, field: Seq<char>)
    ensures
        t.first_in_field(lo, hi, field) matches Some(c) ==> lo <= c < hi && t.has(c),
    decreases hi - lo,
{
    if lo < hi && !t.in_field(lo, field) {
        first_in_field_bounds(t, t.next(lo, hi), hi, field);
    }
}

/// A child stands behind its parent.
pub broadcast proof fn child_bounds(t: Syntax, i: int, field: Seq<char>)
    ensures
        #[trigger] t.child(i, field) matches Some(c) ==> i < c < t.after(i) && t.has(c),
{
    first_in_field_bounds(t, i + 1, t.after(i), field);
}

proof fn first_of_kind_bounds(t: Syntax, lo: int, hi: int, kind: Seq<char>)
    ensures
        t.first_of_kind(lo, hi, kind) matches Some(c) ==> lo <= c < hi,
    decreases hi - lo,
{
    if lo < hi && t.kind(lo) != kind {
        first_of_kind_bounds(t, t.next(lo, hi), hi, kind);
    }
}

/// A child stands behind its parent.
pub broadcast proof fn child_of_kind_bounds(t: Syntax, i: int, kind: Seq<char>)
    ensures
        #[trigger] t.child_of_kind(i, kind) matches Some(c) ==> i < c < t.after(i),
{
    first_of_kind_bounds(t, i + 1, t.after(i), kind);
}

proof fn first_named_bounds(t: Syntax, lo: int, hi: int)
    ensures
        t.first_named(lo, hi) matches Some(c) ==> lo <= c < hi,
    decreases hi - lo,
{
    if lo < hi && !t.named(lo) {
        first_named_bounds(t, t.next(lo, hi), hi);
    }
}

/// A child stands behind its parent.
pub broadcast proof fn named_child_bounds(t: Syntax, i: int)
    ensures
        #[trigger] t.named_child(i) matches Some(c) ==> i < c < t.after(i),
{
    first_named_bounds(t, i + 1, t.after(i));
}

proof fn first_named_of_kind_bounds(t: Syntax, lo: int, hi: int, kind: Seq<char>)
    ensures
        t.first_named_of_kind(lo, hi, kind) matches Some(c) ==> lo <= c < hi,
    decreases hi - lo,
{
    if lo < hi && !(t.named(lo) && t.kind(lo) == kind) {
        first_named_of_kind_bounds(t, t.next(lo, hi), hi, kind);
    }
}

/// A child stands behind its parent.
pub broadcast proof fn named_child_of_kind_bounds(t: Syntax, i: int, kind: Seq<char>)
    ensures
        #[trigger] t.named_child_of_kind(i, kind) matches Some(c) ==> i < c < t.after(i),
{
    first_named_of_kind_bounds(t, i + 1, t.after(i), kind);
}

/// Children stand behind their parents.
pub broadcast group group_child_bounds {
    child_bounds,
    child_of_kind_bounds,
    named_child_bounds,
    named_child_of_kind_bounds,
}

/// A parsed file.
pub struct SyntaxTree {
    source: String,
    nodes: Vec<NodeInfo>,
    last: Vec<usize>,
    parents: Vec<Option<usize>>,
}

impl View for SyntaxTree {
    type V = Syntax;

    closed spec fn view(&self) -> Syntax {
        Syntax {
            source: self.source@,
            nodes: Seq::new(
                self.nodes@.len(),
                |i: int|
                    NodeView {
                        label: self.nodes@[i]@,
                        last: self.last@[i] as int,
                        parent: opt_index(self.parents@[i]),
                    },
            ),
        }
    }
}

/// Climbing from `from` to above depth `low` passes by the nearest node above
/// any greater depth `high`.
proof fn climb(labels: Seq<NodeLabel>, from: int, high: int, low: int)
    requires
        low <= high,
    ensures
        nearest_above(labels, from, low) == match nearest_above(labels, from, high) {
            None => None,
            Some(p) => nearest_above(labels, p, low),
        },
    decreases from + 1,
{
    if from >= 0 && labels[from].depth >= high {
        climb(labels, from - 1, high, low);
    }
}

/// The search forward ends behind where it starts, and at the latest at the end.
proof fn next_at_depth_bounds(labels: Seq<NodeLabel>, from: int, depth: int)
    requires
        0 <= from <= labels.len(),
    ensures
        from <= next_at_depth(labels, from, depth) <= labels.len(),
    decreases labels.len() - from,
{
    if from < labels.len() && labels[from].depth > depth {
        next_at_depth_bounds(labels, from + 1, depth);
    }
}

/// The search backward stays inside the list.
proof fn nearest_above_bounds(labels: Seq<NodeLabel>, from: int, depth: int)
    requires
        from < labels.len(),
    ensures
        nearest_above(labels, from, depth) matches Some(p) ==> 0 <= p <= from,
    decreases from + 1,
{
    if from >= 0 && labels[from].depth >= depth {
        nearest_above_bounds(labels, from - 1, depth);
    }
}

/// The search forward passes by all nodes below the depth, and by the search from
/// any of them for a greater depth.
proof fn next_at_depth_passes(labels: Seq<NodeLabel>, from: int, depth: int, j: int)
    requires
        0 <= from <= j < next_at_depth(labels, from, depth),
    ensures
        j < labels.len(),
        labels[j].depth > depth,
        next_at_depth(labels, j + 1, labels[j].depth) <= next_at_depth(labels, from, depth),
    decreases labels.len() - from,
{
    if from < j {
        next_at_depth_passes(labels, from + 1, depth, j);
    } else {
        next_at_depth_meets(labels, j + 1, depth, labels[j].depth);
    }
}

/// A search for a greater depth ends no later.
proof fn next_at_depth_meets(labels: Seq<NodeLabel>, from: int, low: int, high: int)
    requires
        low <= high,
        0 <= from,
    ensures
        next_at_depth(labels, from, high) <= next_at_depth(labels, from, low),
    decreases labels.len() - from,
{
    if from < labels.len() {
        next_at_depth_bounds(labels, from, low);
        if labels[from].depth > high {
            next_at_depth_meets(labels, from + 1, low, high);
        }
    }
}

/// In the tree that a list of labels describes, each subtree lies inside those
/// that it starts in.
pub proof fn assembled_is_nested(source: Seq<char>, labels: Seq<NodeLabel>)
    ensures
        assemble(source, labels).nested(),
{
    let t = assemble(source, labels);
    assert forall|i: int, j: int|
        t.has(i) && i <= j < #[trigger] t.after(i) implies #[trigger] t.after(j) <= t.after(i) by {
        next_at_depth_bounds(labels, i + 1, labels[i].depth);
        if i < j {
            next_at_depth_passes(labels, i + 1, labels[i].depth, j);
            next_at_depth_bounds(labels, j + 1, labels[j].depth);
        }
    }
}

/// In the tree that a list of labels describes, each child of a node has the node
/// as its parent.
pub proof fn assembled_is_linked(source: Seq<char>, labels: Seq<NodeLabel>)
    ensures
        assemble(source, labels).linked(),
{
    let t = assemble(source, labels);
    assert forall|i: int, c: int| #[trigger] t.has_child(i, c) implies t.parent(c) == Some(i) by {
        next_at_depth_bounds(labels, i + 1, labels[i].depth);
        if i + 1 < t.after(i) {
            next_at_depth_passes(labels, i + 1, labels[i].depth, i + 1);
            reached_has_parent(source, labels, i, i + 1, c);
        }
    }
}

/// A node on the way through the children of a node has the node as its parent.
proof fn reached_has_parent(source: Seq<char>, labels: Seq<NodeLabel>, i: int, lo: int, c: int)
    requires
        assemble(source, labels).has(i),
        i < lo <= labels.len(),
        assemble(source, labels).reaches(lo, assemble(source, labels).after(i), c),
        forall|k: int| i < k < lo ==> #[trigger] labels[k].depth >= labels[lo].depth,
    ensures
        assemble(source, labels).parent(c) == Some(i),
    decreases assemble(source, labels).after(i) - lo,
{
    let t = assemble(source, labels);
    let hi = t.after(i);
    next_at_depth_bounds(labels, i + 1, labels[i].depth);
    next_at_depth_passes(labels, i + 1, labels[i].depth, lo);
    if lo == c {
        nearest_is(labels, i, c - 1, labels[c].depth);
    } else {
        let next = t.next(lo, hi);
        next_at_depth_bounds(labels, lo + 1, labels[lo].depth);
        assert(t.reaches(next, hi, c));
        if next < hi {
            next_at_depth_is_first(labels, lo + 1, labels[lo].depth);
            assert forall|k: int| i < k < next implies #[trigger] labels[k].depth
                >= labels[next].depth by {
                if k > lo {
                    next_at_depth_passes(labels, lo + 1, labels[lo].depth, k);
                }
            }
            reached_has_parent(source, labels, i, next, c);
        }
    }
}

/// The search backward ends at the first node above the depth.
proof fn nearest_is(labels: Seq<NodeLabel>, i: int, from: int, depth: int)
    requires
        0 <= i <= from,
        labels[i].depth < depth,
        forall|k: int| i < k <= from ==> #[trigger] labels[k].depth >= depth,
    ensures
        nearest_above(labels, from, depth) == Some(i),
    decreases from - i,
{
    if from > i {
        nearest_is(labels, i, from - 1, depth);
    }
}

proof fn first_in_field_reached(t: Syntax, lo: int, hi: int, field: Seq<char>)
    ensures
        t.first_in_field(lo, hi, field) matches Some(c) ==> t.reaches(lo, hi, c),
    decreases hi - lo,
{
    if lo < hi && !t.in_field(lo, field) {
        first_in_field_reached(t, t.next(lo, hi), hi, field);
    }
}

/// The child under a field is a child.
pub proof fn field_is_child(t: Syntax, i: int, field: Seq<char>)
    requires
        t.has(i),
    ensures
        t.child(i, field) matches Some(c) ==> t.has_child(i, c),
{
    first_in_field_reached(t, i + 1, t.after(i), field);
}

proof fn first_of_kind_reached(t: Syntax, lo: int, hi: int, kind: Seq<char>)
    ensures
        t.first_of_kind(lo, hi, kind) matches Some(c) ==> t.reaches(lo, hi, c),
    decreases hi - lo,
{
    if lo < hi && t.kind(lo) != kind {
        first_of_kind_reached(t, t.next(lo, hi), hi, kind);
    }
}

/// The first child of a kind is a child.
pub proof fn first_of_kind_is_child(t: Syntax, i: int, kind: Seq<char>)
    requires
        t.has(i),
    ensures
        t.child_of_kind(i, kind) matches Some(c) ==> t.has_child(i, c),
{
    first_of_kind_reached(t, i + 1, t.after(i), kind);
}

proof fn first_named_reached(t: Syntax, lo: int, hi: int)
    ensures
        t.first_named(lo, hi) matches Some(c) ==> t.reaches(lo, hi, c),
    decreases hi - lo,
{
    if lo < hi && !t.named(lo) {
        first_named_reached(t, t.next(lo, hi), hi);
    }
}

/// The first named child is a child.
pub proof fn first_named_is_child(t: Syntax, i: int)
    requires
        t.has(i),
    ensures
        t.named_child(i) matches Some(c) ==> t.has_child(i, c),
{
    first_named_reached(t, i + 1, t.after(i));
}

/// In the tree that a list of labels describes, the parent of a node stands
/// before it, and its subtree holds the node.
pub proof fn assembled_parents(source: Seq<char>, labels: Seq<NodeLabel>, i: int)
    requires
        0 <= i < labels.len(),
    ensures
        assemble(source, labels).parent(i) matches Some(p) ==> 0 <= p < i < assemble(
            source,
            labels,
        ).after(p),
{
    nearest_above_bounds(labels, i - 1, labels[i].depth);
    if let Some(p) = nearest_above(labels, i - 1, labels[i].depth) {
        nearest_above_covers(labels, i - 1, labels[i].depth, p + 1, i);
        next_at_depth_bounds(labels, p + 1, labels[p].depth);
        if next_at_depth(labels, p + 1, labels[p].depth) <= i {
            next_at_depth_is_first(labels, p + 1, labels[p].depth);
            let end = next_at_depth(labels, p + 1, labels[p].depth);
            assert(labels[end].depth <= labels[p].depth);
            if end < i {
                assert(labels[end].depth >= labels[i].depth);
            }
        }
    }
}

/// The node where the search forward ends stands at the depth or above.
proof fn next_at_depth_is_first(labels: Seq<NodeLabel>, from: int, depth: int)
    requires
        0 <= from,
    ensures
        next_at_depth(labels, from, depth) < labels.len() ==> labels[next_at_depth(
            labels,
            from,
            depth,
        )].depth <= depth,
    decreases labels.len() - from,
{
    if from < labels.len() && labels[from].depth > depth {
        next_at_depth_is_first(labels, from + 1, depth);
    }
}

/// The search backward passes by no node above the depth.
proof fn nearest_above_covers(labels: Seq<NodeLabel>, from: int, depth: int, lo: int, hi: int)
    requires
        nearest_above(labels, from, depth) == Some(lo - 1),
        hi == from + 1,
        lo <= hi,
    ensures
        forall|k: int| lo <= k < hi ==> #[trigger] labels[k].depth >= depth,
        labels[lo - 1].depth < depth,
    decreases from + 1,
{
    if from >= lo {
        nearest_above_bounds_free(labels, from, depth);
        nearest_above_covers(labels, from - 1, depth, lo, hi - 1);
    } else {
        nearest_above_bounds_free(labels, from, depth);
    }
}

/// The search backward ends no further than where it starts.
proof fn nearest_above_bounds_free(labels: Seq<NodeLabel>, from: int, depth: int)
    ensures
        nearest_above(labels, from, depth) matches Some(p) ==> p <= from && labels[p].depth < depth,
    decreases from + 1,
{
    if from >= 0 && labels[from].depth >= depth {
        nearest_above_bounds_free(labels, from - 1, depth);
    }
}

/// The index just past the subtree of node `i`.
fn subtree_end(nodes: &Vec<NodeInfo>, i: usize) -> (end: usize)
    requires
        i < nodes@.len(),
    ensures
        end == next_at_depth(views(nodes@), i + 1, nodes@[i as int]@.depth),
{
    let n: usize = nodes.len();
    let depth: usize = nodes[i].depth;
    let mut j: usize = i + 1;
    while j < n && nodes[j].depth > depth
        invariant
            n == nodes@.len(),
            j <= nodes@.len(),
            i < nodes@.len(),
            depth == nodes@[i as int]@.depth,
            next_at_depth(views(nodes@), i + 1, depth as int) == next_at_depth(
                views(nodes@),
                j as int,
                depth as int,
            ),
        decreases nodes@.len() - j,
    {
        j += 1;
    }
    j
}

/// The parent of node `i`, from the parents of the nodes before it.
fn parent_of(nodes: &Vec<NodeInfo>, parents: &Vec<Option<usize>>, i: usize) -> (parent: Option<
    usize,
>)
    requires
        i < nodes@.len(),
        parents@.len() == i,
        forall|k: int|
            0 <= k < i ==> opt_index(#[trigger] parents@[k]) == nearest_above(
                views(nodes@),
                k - 1,
                nodes@[k]@.depth,
            ),
    ensures
        opt_index(parent) == nearest_above(views(nodes@), i - 1, nodes@[i as int]@.depth),
{
    let depth: usize = nodes[i].depth;
    let ghost labels = views(nodes@);
    let mut at: usize = i;
    let mut found: bool = false;
    let mut stop: bool = i == 0;
    if !stop {
        at = i - 1;
    }
    while !stop && !found
        invariant
            i < nodes@.len(),
            parents@.len() == i,
            labels == views(nodes@),
            forall|k: int|
                0 <= k < i ==> opt_index(#[trigger] parents@[k]) == nearest_above(
                    labels,
                    k - 1,
                    nodes@[k]@.depth,
                ),
            depth == nodes@[i as int]@.depth,
            stop ==> nearest_above(labels, i - 1, depth as int) is None,
            !stop ==> at < i && nearest_above(labels, i - 1, depth as int) == nearest_above(
                labels,
                at as int,
                depth as int,
            ),
            found ==> !stop && labels[at as int].depth < depth,
        decreases (if stop || found { 0int } else { at + 1 }),
    {
        if nodes[at].depth < depth {
            found = true;
        } else {
            proof {
                climb(labels, at - 1, nodes@[at as int]@.depth, depth as int);
                nearest_above_bounds(labels, at - 1, nodes@[at as int]@.depth);
            }
            match parents[at] {
                Some(p) => {
                    at = p;
                },
                None => {
                    stop = true;
                },
            }
        }
    }
    if found {
        Some(at)
    } else {
        None
    }
}

impl SyntaxTree {
    spec fn wf(&self) -> bool {
        &&& self.last@.len() == self.nodes@.len()
        &&& self.parents@.len() == self.nodes@.len()
        &&& forall|i: int|
            0 <= i < self.parents@.len() ==> (#[trigger] self.parents@[i] matches Some(p) ==> p < i)
    }

    #[verifier::type_invariant]
    spec fn inv(self) -> bool {
        self.wf()
    }

    /// The tree of a file, from the nodes in document order.
    pub fn build(source: &str, nodes: Vec<NodeInfo>) -> (tree: SyntaxTree)
        ensures
            tree@ == assemble(source@, views(nodes@)),
    {
        let ghost labels = views(nodes@);
        let mut last: Vec<usize> = Vec::new();
        let mut parents: Vec<Option<usize>> = Vec::new();
        let mut i: usize = 0;
        while i < nodes.len()
            invariant
                labels == views(nodes@),
                i <= nodes@.len(),
                last@.len() == i,
                parents@.len() == i,
                forall|k: int|
                    0 <= k < i ==> #[trigger] last@[k] == next_at_depth(
                        labels,
                        k + 1,
                        nodes@[k]@.depth,
                    ),
                forall|k: int|
                    0 <= k < i ==> opt_index(#[trigger] parents@[k]) == nearest_above(
                        labels,
                        k - 1,
                        nodes@[k]@.depth,
                    ),
                forall|k: int|
                    0 <= k < i ==> (#[trigger] parents@[k] matches Some(p) ==> p < k),
            decreases nodes@.len() - i,
        {
            let end: usize = subtree_end(&nodes, i);
            let parent = parent_of(&nodes, &parents, i);
            proof {
                nearest_above_bounds(labels, i - 1, nodes@[i as int]@.depth);
            }
            last.push(end);
            parents.push(parent);
            i += 1;
        }
        let tree = SyntaxTree { source: source.to_owned(), nodes, last, parents };
        assert(tree@.nodes =~= assemble(source@, labels).nodes);
        tree
    }

    /// The number of nodes.
    pub fn len(&self) -> (n: usize)
        ensures
            n == self@.len(),
    {
        self.nodes.len()
    }

    /// The source text.
    pub fn source(&self) -> (source: &str)
        ensures
            source@ == self@.source,
    {
        self.source.as_str()
    }

    /// The index just past the subtree of node `i`.
    pub fn after(&self, i: usize) -> (end: usize)
        requires
            i < self@.len(),
        ensures
            end == self@.after(i as int),
            i < end <= self@.len(),
    {
        proof {
            use_type_invariant(self);
        }
        let n: usize = self.nodes.len();
        let last: usize = self.last[i];
        if i < last && last <= n {
            last
        } else {
            i + 1
        }
    }

    /// The sibling that follows node `lo` in `lo..hi`; `hi` where there is none.
    pub fn next(&self, lo: usize, hi: usize) -> (next: usize)
        requires
            lo < hi <= self@.len(),
        ensures
            next == self@.next(lo as int, hi as int),
            lo < next <= hi,
    {
        let end: usize = self.after(lo);
        if end <= hi {
            end
        } else {
            hi
        }
    }

    /// The kind of node `i`.
    pub fn kind(&self, i: usize) -> (kind: &str)
        ensures
            kind@ == self@.kind(i as int),
    {
        proof {
            reveal_strlit("");
            assert(""@ =~= Seq::<char>::empty());
        }
        if i < self.nodes.len() {
            self.nodes[i].kind.as_str()
        } else {
            ""
        }
    }

    /// Whether node `i` is of the kind `kind`.
    pub fn is(&self, i: usize, kind: &str) -> (b: bool)
        ensures
            b == (self@.kind(i as int) == kind@),
    {
        same(self.kind(i), kind)
    }

    /// Whether node `i` stands under the field `field` of its parent.
    pub fn in_field(&self, i: usize, field: &str) -> (b: bool)
        ensures
            b == self@.in_field(i as int, field@),
    {
        if i < self.nodes.len() {
            match &self.nodes[i].field {
                Some(name) => same(name.as_str(), field),
                None => false,
            }
        } else {
            false
        }
    }

    /// Whether node `i` is a named node.
    pub fn named(&self, i: usize) -> (b: bool)
        ensures
            b == self@.named(i as int),
    {
        i < self.nodes.len() && self.nodes[i].named
    }

    /// The byte at which node `i` starts.
    pub fn start(&self, i: usize) -> (byte: usize)
        ensures
            byte == self@.start(i as int),
    {
        if i < self.nodes.len() {
            self.nodes[i].start
        } else {
            0
        }
    }

    /// The byte just past node `i`.
    pub fn end(&self, i: usize) -> (byte: usize)
        ensures
            byte == self@.end(i as int),
    {
        if i < self.nodes.len() {
            self.nodes[i].end
        } else {
            0
        }
    }

    /// The line of node `i`, counted from zero.
    pub fn row(&self, i: usize) -> (row: usize)
        ensures
            row == self@.row(i as int),
    {
        if i < self.nodes.len() {
            self.nodes[i].row
        } else {
            0
        }
    }

    /// The column of node `i`, counted from zero.
    pub fn column(&self, i: usize) -> (column: usize)
        ensures
            column == self@.column(i as int),
    {
        if i < self.nodes.len() {
            self.nodes[i].column
        } else {
            0
        }
    }

    /// The parent of node `i`.
    pub fn parent(&self, i: usize) -> (parent: Option<usize>)
        ensures
            opt_index(parent) == self@.parent(i as int),
            parent matches Some(p) ==> p < i < self@.len(),
    {
        proof {
            use_type_invariant(self);
        }
        if i < self.nodes.len() {
            self.parents[i]
        } else {
            None
        }
    }

    /// The source text of node `i`.
    pub fn text(&self, i: usize) -> (text: &str)
        ensures
            text@ == self@.text(i as int),
    {
        slice_text(self.source.as_str(), self.start(i), self.end(i))
    }

    /// The child of node `i` under the field `field`.
    pub fn child(&self, i: usize, field: &str) -> (child: Option<usize>)
        requires
            i < self@.len(),
        ensures
            opt_index(child) == self@.child(i as int, field@),
            child matches Some(c) ==> i < c < self@.after(i as int) <= self@.len(),
    {
        let hi: usize = self.after(i);
        let mut lo: usize = i + 1;
        while lo < hi
            invariant
                i < lo,
                hi == self@.after(i as int),
                hi <= self@.len(),
                self@.first_in_field(lo as int, hi as int, field@) == self@.child(i as int, field@),
            decreases hi - lo,
        {
            if self.in_field(lo, field) {
                return Some(lo);
            }
            lo = self.next(lo, hi);
        }
        None
    }

    /// The first child of node `i` of the kind `kind`.
    pub fn child_of_kind(&self, i: usize, kind: &str) -> (child: Option<usize>)
        requires
            i < self@.len(),
        ensures
            opt_index(child) == self@.child_of_kind(i as int, kind@),
            child matches Some(c) ==> i < c < self@.after(i as int) <= self@.len(),
    {
        let hi: usize = self.after(i);
        let mut lo: usize = i + 1;
        while lo < hi
            invariant
                i < lo,
                hi == self@.after(i as int),
                hi <= self@.len(),
                self@.first_of_kind(lo as int, hi as int, kind@) == self@.child_of_kind(
                    i as int,
                    kind@,
                ),
            decreases hi - lo,
        {
            if self.is(lo, kind) {
                return Some(lo);
            }
            lo = self.next(lo, hi);
        }
        None
    }

    /// The first named child of node `i`.
    pub fn named_child(&self, i: usize) -> (child: Option<usize>)
        requires
            i < self@.len(),
        ensures
            opt_index(child) == self@.named_child(i as int),
            child matches Some(c) ==> i < c < self@.after(i as int) <= self@.len(),
    {
        let hi: usize = self.after(i);
        let mut lo: usize = i + 1;
        while lo < hi
            invariant
                i < lo,
                hi == self@.after(i as int),
                hi <= self@.len(),
                self@.first_named(lo as int, hi as int) == self@.named_child(i as int),
            decreases hi - lo,
        {
            if self.named(lo) {
                return Some(lo);
            }
            lo = self.next(lo, hi);
        }
        None
    }

    /// The named child of node `i` with the number `k`.
    pub fn nth_named_child(&self, i: usize, k: usize) -> (child: Option<usize>)
        requires
            i < self@.len(),
        ensures
            opt_index(child) == self@.nth_named(i + 1, self@.after(i as int), k as int),
            child matches Some(c) ==> i < c < self@.after(i as int) <= self@.len(),
    {
        let hi: usize = self.after(i);
        let mut lo: usize = i + 1;
        let mut left: usize = k;
        while lo < hi
            invariant
                i < lo,
                hi == self@.after(i as int),
                hi <= self@.len(),
                self@.nth_named(lo as int, hi as int, left as int) == self@.nth_named(
                    i + 1,
                    hi as int,
                    k as int,
                ),
            decreases hi - lo,
        {
            if self.named(lo) {
                if left == 0 {
                    return Some(lo);
                }
                left -= 1;
            }
            lo = self.next(lo, hi);
        }
        None
    }

    /// The first named child of node `i` of the kind `kind`.
    pub fn named_child_of_kind(&self, i: usize, kind: &str) -> (child: Option<usize>)
        requires
            i < self@.len(),
        ensures
            opt_index(child) == self@.named_child_of_kind(i as int, kind@),
            child matches Some(c) ==> i < c < self@.after(i as int) <= self@.len(),
    {
        let hi: usize = self.after(i);
        let mut lo: usize = i + 1;
        while lo < hi
            invariant
                i < lo,
                hi == self@.after(i as int),
                hi <= self@.len(),
                self@.first_named_of_kind(lo as int, hi as int, kind@)
                    == self@.named_child_of_kind(i as int, kind@),
            decreases hi - lo,
        {
            if self.named(lo) && self.is(lo, kind) {
                return Some(lo);
            }
            lo = self.next(lo, hi);
        }
        None
    }

    /// Whether node `i` is the child of `parent` under the field `field`.
    pub fn is_child(&self, parent: usize, field: &str, i: usize) -> (b: bool)
        requires
            parent < self@.len(),
        ensures
            b == (self@.child(parent as int, field@) == Some(i as int)),
    {
        match self.child(parent, field) {
            Some(c) => c == i,
            None => false,
        }
    }

    /// The text of the child of node `i` under the field `field`.
    pub fn field_text(&self, i: usize, field: &str) -> (text: Option<String>)
        requires
            i < self@.len(),
        ensures
            opt_text(text) == self@.field_text(i as int, field@),
    {
        match self.child(i, field) {
            Some(c) => Some(self.text(c).to_owned()),
            None => None,
        }
    }
}

} // verus!
