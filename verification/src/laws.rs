//! What holds of every map, stated over the model and proved.

use crate::diagram::{diagram, node_line};
use crate::graph::{WorldMap, WorldMapView};
use crate::shape::NodeShape;
use crate::text::{decimal, escape, is_unsafe, sanitized};
use vstd::prelude::*;

verus! {

/// Adding a location keeps the map well formed.
pub proof fn lemma_add_node_wf(m: WorldMapView, name: Seq<char>, shape: NodeShape)
    requires
        m.wf(),
        m.locations.len() < usize::MAX,
    ensures
        m.add_node(name, shape).wf(),
{
}

/// Adding a path keeps the map well formed.
pub proof fn lemma_add_path_wf(m: WorldMapView, from: usize, to: usize, distance: u32)
    requires
        m.wf(),
    ensures
        m.add_path(from, to, distance).wf(),
        m.add_bidirectional_path(from, to, distance).wf(),
{
    let one = m.add_path(from, to, distance);
    assert(one.wf());
    assert(one.add_path(to, from, distance).wf());
}

/// Removing a path keeps the map well formed.
pub proof fn lemma_remove_path_wf(m: WorldMapView, from: usize, to: usize)
    requires
        m.wf(),
    ensures
        m.remove_directed_path(from, to).wf(),
        m.remove_bidirectional_path(from, to).wf(),
{
    let one = m.remove_directed_path(from, to);
    assert(one.wf());
    assert(one.remove_directed_path(to, from).wf());
}

/// Removing a location keeps the map well formed.
pub proof fn lemma_remove_node_wf(m: WorldMapView, index: usize)
    requires
        m.wf(),
    ensures
        m.remove_node(index).wf(),
{
}

/// After a two-way path is added between two indices in range, there is a
/// path each way, each with the given distance, and the pair is
/// bidirectional.
pub proof fn lemma_add_bidirectional_path_connects(
    m: WorldMapView,
    a: usize,
    b: usize,
    distance: u32,
)
    requires
        m.wf(),
        m.in_range(a),
        m.in_range(b),
    ensures
        m.add_bidirectional_path(a, b, distance).is_bidirectional(a, b),
        m.add_bidirectional_path(a, b, distance).has_directed_path(a, b),
        m.add_bidirectional_path(a, b, distance).has_directed_path(b, a),
        m.add_bidirectional_path(a, b, distance).paths[a as int][b].distance == distance,
        m.add_bidirectional_path(a, b, distance).paths[b as int][a].distance == distance,
{
}

/// A location that nothing leads to any more: its name resolves to
/// nothing, it has no neighbours, and it is no other location's neighbour.
pub open spec fn is_detached(m: WorldMapView, index: usize) -> bool {
    &&& m.get_index(m.locations[index as int].name) is None
    &&& m.neighbors(index) == Set::<usize>::empty()
    &&& forall|other: usize| other != index ==> !(#[trigger] m.neighbors(other)).contains(index)
}

/// Removing a location detaches it. For a location that was removed
/// earlier the call changes nothing, so it is detached afterwards exactly
/// if it was before.
pub proof fn lemma_remove_node_detaches(m: WorldMapView, index: usize)
    requires
        m.wf(),
        m.in_range(index),
        m.locations[index as int].removed ==> is_detached(m, index),
    ensures
        is_detached(m.remove_node(index), index),
{
    let after = m.remove_node(index);
    if m.is_active(index) {
        assert(after.neighbors(index) =~= Set::<usize>::empty());
    }
}

/// Removing a location leaves every path between two other locations as
/// it was, and every other location live or removed as it was.
pub proof fn lemma_remove_node_keeps_the_rest(m: WorldMapView, index: usize, a: usize, b: usize)
    requires
        m.wf(),
        a != index,
        b != index,
    ensures
        m.remove_node(index).has_directed_path(a, b) == m.has_directed_path(a, b),
        m.has_directed_path(a, b) ==> m.remove_node(index).paths[a as int][b]
            == m.paths[a as int][b],
        m.remove_node(index).is_active(a) == m.is_active(a),
        m.remove_node(index).locations.len() == m.locations.len(),
{
}

/// Removing a location twice is the same as removing it once.
pub proof fn lemma_remove_node_idempotent(m: WorldMapView, index: usize)
    ensures
        m.remove_node(index).remove_node(index) == m.remove_node(index),
{
}

/// One step in the life of a map.
pub enum MapOp {
    AddNode { name: Seq<char>, shape: NodeShape },
    AddPath { from: usize, to: usize, distance: u32 },
    AddBidirectionalPath { a: usize, b: usize, distance: u32 },
    RemoveDirectedPath { from: usize, to: usize },
    RemoveBidirectionalPath { a: usize, b: usize },
    RemoveNode { index: usize },
}

/// The map after one step.
pub open spec fn apply(m: WorldMapView, op: MapOp) -> WorldMapView {
    match op {
        MapOp::AddNode { name, shape } => m.add_node(name, shape),
        MapOp::AddPath { from, to, distance } => m.add_path(from, to, distance),
        MapOp::AddBidirectionalPath { a, b, distance } => m.add_bidirectional_path(a, b, distance),
        MapOp::RemoveDirectedPath { from, to } => m.remove_directed_path(from, to),
        MapOp::RemoveBidirectionalPath { a, b } => m.remove_bidirectional_path(a, b),
        MapOp::RemoveNode { index } => m.remove_node(index),
    }
}

/// The map that a sequence of steps builds from the empty map.
pub open spec fn replay(ops: Seq<MapOp>) -> WorldMapView
    decreases ops.len(),
{
    if ops.len() == 0 {
        WorldMapView::empty()
    } else {
        apply(replay(ops.drop_last()), ops.last())
    }
}

/// No sequence of steps adds more locations than it has steps.
pub proof fn lemma_replay_len(ops: Seq<MapOp>)
    ensures
        replay(ops).locations.len() <= ops.len(),
    decreases ops.len(),
{
    if ops.len() > 0 {
        lemma_replay_len(ops.drop_last());
    }
}

/// Every map that a sequence of steps builds is well formed, as long as the
/// indices fit the machine.
pub proof fn lemma_replay_wf(ops: Seq<MapOp>)
    requires
        ops.len() <= usize::MAX,
    ensures
        replay(ops).wf(),
    decreases ops.len(),
{
    if ops.len() > 0 {
        let before = replay(ops.drop_last());
        lemma_replay_wf(ops.drop_last());
        lemma_replay_len(ops.drop_last());
        match ops.last() {
            MapOp::AddNode { name, shape } => lemma_add_node_wf(before, name, shape),
            MapOp::AddPath { from, to, distance } => lemma_add_path_wf(before, from, to, distance),
            MapOp::AddBidirectionalPath { a, b, distance } => lemma_add_path_wf(
                before,
                a,
                b,
                distance,
            ),
            MapOp::RemoveDirectedPath { from, to } => lemma_remove_path_wf(before, from, to),
            MapOp::RemoveBidirectionalPath { a, b } => lemma_remove_path_wf(before, a, b),
            MapOp::RemoveNode { index } => lemma_remove_node_wf(before, index),
        }
    }
}

/// Two maps that were built by the same sequence of steps have the same
/// diagram, character for character: the diagram depends on nothing but
/// the locations, the names and the paths.
pub proof fn lemma_same_steps_same_diagram(a: WorldMap, b: WorldMap, ops: Seq<MapOp>)
    requires
        a@ == replay(ops),
        b@ == replay(ops),
    ensures
        diagram(a@) == diagram(b@),
{
}

/// No two shapes are drawn alike: their opening brackets differ.
pub proof fn lemma_shapes_are_told_apart(a: NodeShape, b: NodeShape)
    requires
        a != b,
    ensures
        a.opening() != b.opening(),
        a.wrapped(Seq::empty()) != b.wrapped(Seq::empty()),
{
    reveal_strlit("[");
    reveal_strlit("(");
    reveal_strlit("((");
    reveal_strlit("{");
    reveal_strlit("{{");
    reveal_strlit("([");
    reveal_strlit("[[");
    reveal_strlit("[(");
    reveal_strlit("(((");
    reveal_strlit(">");
    reveal_strlit("]");
    reveal_strlit(")");
    reveal_strlit("))");
    reveal_strlit("}");
    reveal_strlit("}}");
    reveal_strlit("])");
    reveal_strlit("]]");
    reveal_strlit(")]");
    reveal_strlit(")))");
    let o = a.opening();
    let p = b.opening();
    if o == p {
        assert(o.len() == p.len());
        assert(o[0] == p[0]);
        if o.len() > 1 {
            assert(o[1] == p[1]);
        }
    }
    let x = a.wrapped(Seq::empty());
    let y = b.wrapped(Seq::empty());
    assert(x =~= a.opening() + a.closing());
    assert(y =~= b.opening() + b.closing());
    if x == y {
        assert(x.len() == y.len());
        assert(x[0] == y[0]);
        assert(x[1] == y[1]);
        if x.len() > 2 {
            assert(x[2] == y[2]);
        }
    }
}

/// No unsafe character is left in an escaped label.
pub proof fn lemma_sanitized_is_safe(s: Seq<char>)
    ensures
        forall|i: int| 0 <= i < sanitized(s).len() ==> !is_unsafe(#[trigger] sanitized(s)[i]),
    decreases s.len(),
{
    if s.len() > 0 {
        let head = sanitized(s.drop_last());
        let tail = escape(s.last());
        lemma_sanitized_is_safe(s.drop_last());
        lemma_escape_is_safe(s.last());
        assert forall|i: int| 0 <= i < sanitized(s).len() implies !is_unsafe(
            #[trigger] sanitized(s)[i],
        ) by {
            if i < head.len() {
                assert(sanitized(s)[i] == head[i]);
            } else {
                assert(sanitized(s)[i] == tail[i - head.len()]);
            }
        }
    }
}

/// No unsafe character is left in what one character is escaped to.
pub proof fn lemma_escape_is_safe(c: char)
    ensures
        forall|i: int| 0 <= i < escape(c).len() ==> !is_unsafe(#[trigger] escape(c)[i]),
{
    reveal_strlit("#quot;");
    reveal_strlit("#amp;");
    reveal_strlit("#lt;");
    reveal_strlit("#gt;");
    reveal_strlit("#124;");
}

/// In the declaration of a live location, what stands between the
/// brackets is the escaped name, with no unsafe character in it.
pub proof fn lemma_declared_label_is_safe(m: WorldMapView, index: int)
    requires
        0 <= index < m.locations.len(),
        !m.locations[index].removed,
    ensures
        node_line(m, index) == decimal(index as nat) + m.locations[index].shape.opening()
            + sanitized(m.locations[index].name) + m.locations[index].shape.closing() + "\n"@,
        forall|i: int|
            0 <= i < sanitized(m.locations[index].name).len() ==> !is_unsafe(
                #[trigger] sanitized(m.locations[index].name)[i],
            ),
{
    lemma_sanitized_is_safe(m.locations[index].name);
    let l = m.locations[index];
    assert(decimal(index as nat) + l.shape.wrapped(sanitized(l.name)) + "\n"@ =~= decimal(
        index as nat,
    ) + l.shape.opening() + sanitized(l.name) + l.shape.closing() + "\n"@);
}

} // verus!
