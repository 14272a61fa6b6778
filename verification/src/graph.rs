//! The world map: locations with stable indices, a name lookup, and for
//! every location its outgoing paths by destination.

use crate::shape::NodeShape;
use std::collections::BTreeMap;
use vstd::hash_map::StringHashMap;
use vstd::prelude::*;
use vstd::std_specs::cmp::OrdSpec;
use vstd::std_specs::iter::IteratorSpec;
use vstd::string::StringExecFns;

verus! {

broadcast use {vstd::std_specs::btree::group_btree_axioms, vstd::laws_cmp::group_laws_cmp};

/// A directed connection; it belongs to its source and is found by its
/// destination.
#[derive(Debug, Clone, Copy, PartialEq, Eq, Structural)]
pub struct Path {
    pub distance: u32,
}

/// A place on the map. Its index is its position in the map's list and never
/// changes; removal only sets the flag.
pub struct Location {
    pub name: String,
    pub shape: NodeShape,
    pub removed: bool,
}

/// What a `Location` stands for.
pub struct LocationView {
    pub name: Seq<char>,
    pub shape: NodeShape,
    pub removed: bool,
}

impl View for Location {
    type V = LocationView;

    open spec fn view(&self) -> LocationView {
        LocationView { name: self.name@, shape: self.shape, removed: self.removed }
    }
}

/// The mathematical content of a `WorldMap`.
#[verifier::ext_equal]
pub struct WorldMapView {
    /// Every location ever added, by index.
    pub locations: Seq<LocationView>,
    /// The name lookup.
    pub names: Map<Seq<char>, usize>,
    /// For every index, the outgoing paths by destination.
    pub paths: Seq<Map<usize, Path>>,
}

impl WorldMapView {
    /// The map with no location.
    pub open spec fn empty() -> Self {
        WorldMapView { locations: Seq::empty(), names: Map::empty(), paths: Seq::empty() }
    }

    /// The bookkeeping that every operation keeps: each location has its
    /// path table, a name leads to a live location that bears it, and every
    /// path ends at an index that was handed out.
    pub open spec fn wf(self) -> bool {
        &&& self.paths.len() == self.locations.len()
        &&& forall|name: Seq<char>| #[trigger]
            self.names.contains_key(name) ==> {
                &&& self.names[name] < self.locations.len()
                &&& !self.locations[self.names[name] as int].removed
                &&& self.locations[self.names[name] as int].name == name
            }
        &&& forall|from: int, to: usize|
            0 <= from < self.paths.len() && #[trigger] self.paths[from].contains_key(to) ==> to
                < self.locations.len()
    }

    /// Whether `index` was handed out by `add_node`.
    pub open spec fn in_range(self, index: usize) -> bool {
        index < self.locations.len()
    }

    /// Whether `index` names a location that was not removed.
    pub open spec fn is_active(self, index: usize) -> bool {
        self.in_range(index) && !self.locations[index as int].removed
    }

    /// The map with one more location, live and without paths, at the next
    /// index; its name now leads to it, whatever it led to before.
    pub open spec fn add_node(self, name: Seq<char>, shape: NodeShape) -> Self {
        WorldMapView {
            locations: self.locations.push(LocationView { name, shape, removed: false }),
            names: self.names.insert(name, self.locations.len() as usize),
            paths: self.paths.push(Map::empty()),
        }
    }

    /// The index that `name` leads to, if it leads to a live location.
    pub open spec fn get_index(self, name: Seq<char>) -> Option<usize> {
        if self.names.contains_key(name) && self.is_active(self.names[name]) {
            Some(self.names[name])
        } else {
            None
        }
    }

    /// The map with the path from `from` to `to` set to `distance`; the same
    /// map if either index is out of range.
    pub open spec fn add_path(self, from: usize, to: usize, distance: u32) -> Self {
        if self.in_range(from) && self.in_range(to) {
            WorldMapView {
                paths: self.paths.update(
                    from as int,
                    self.paths[from as int].insert(to, Path { distance }),
                ),
                ..self
            }
        } else {
            self
        }
    }

    /// The map with the paths between `a` and `b` set both ways, one after
    /// the other.
    pub open spec fn add_bidirectional_path(self, a: usize, b: usize, distance: u32) -> Self {
        self.add_path(a, b, distance).add_path(b, a, distance)
    }

    /// Whether there is a path from `from` to `to`, whether or not its ends
    /// are live.
    pub open spec fn has_directed_path(self, from: usize, to: usize) -> bool {
        from < self.paths.len() && self.paths[from as int].contains_key(to)
    }

    /// Whether there are paths both ways between `a` and `b`.
    pub open spec fn is_bidirectional(self, a: usize, b: usize) -> bool {
        self.has_directed_path(a, b) && self.has_directed_path(b, a)
    }

    /// The map without the path from `from` to `to`.
    pub open spec fn remove_directed_path(self, from: usize, to: usize) -> Self {
        if from < self.paths.len() {
            WorldMapView {
                paths: self.paths.update(from as int, self.paths[from as int].remove(to)),
                ..self
            }
        } else {
            self
        }
    }

    /// The map without the paths between `a` and `b`, whichever there were.
    pub open spec fn remove_bidirectional_path(self, a: usize, b: usize) -> Self {
        self.remove_directed_path(a, b).remove_directed_path(b, a)
    }

    /// The map with the location at `index` marked as removed, its name
    /// forgotten, its own paths gone and every path to it gone; the same map
    /// if `index` is out of range or was removed before.
    pub open spec fn remove_node(self, index: usize) -> Self {
        if self.is_active(index) {
            WorldMapView {
                locations: self.locations.update(
                    index as int,
                    LocationView { removed: true, ..self.locations[index as int] },
                ),
                names: self.names.remove(self.locations[index as int].name),
                paths: Seq::new(
                    self.paths.len(),
                    |i: int|
                        if i == index {
                            Map::empty()
                        } else {
                            self.paths[i].remove(index)
                        },
                ),
            }
        } else {
            self
        }
    }

    /// The destinations of the paths that leave a live location; nothing
    /// for an index that is out of range or removed.
    pub open spec fn neighbors(self, node: usize) -> Set<usize> {
        if self.is_active(node) && node < self.paths.len() {
            self.paths[node as int].dom()
        } else {
            Set::empty()
        }
    }
}

/// `entries` lists the map `m` exactly, by strictly ascending key.
pub open spec fn lists(entries: Seq<(usize, Path)>, m: Map<usize, Path>) -> bool {
    &&& forall|i: int, j: int| 0 <= i < j < entries.len() ==> entries[i].0 < entries[j].0
    &&& forall|i: int|
        0 <= i < entries.len() ==> m.contains_key(#[trigger] entries[i].0) && m[entries[i].0]
            == entries[i].1
    &&& forall|k: usize|
        m.contains_key(k) ==> exists|i: int| 0 <= i < entries.len() && #[trigger] entries[i].0 == k
}

/// The paths of one location, by ascending destination.
fn sorted_paths(paths: &BTreeMap<usize, Path>) -> (r: Vec<(usize, Path)>)
    ensures
        lists(r@, paths@),
{
    let mut out: Vec<(usize, Path)> = Vec::new();
    let iter = paths.iter();
    let ghost all = iter.remaining();
    let ghost keys = all.map_values(|kv: (&usize, &Path)| *kv.0);
    assert(forall|i: int, j: int|
        0 <= i < j < keys.len() ==> keys[i].cmp_spec(&keys[j]) is Less);
    for kv in it: iter
        invariant
            it.seq() == all,
            out@.len() == it.index(),
            forall|i: int| 0 <= i < out@.len() ==> out@[i].0 == *all[i].0 && out@[i].1 == *all[i].1,
    {
        out.push((*kv.0, *kv.1));
    }
    assert forall|i: int, j: int| 0 <= i < j < out@.len() implies out@[i].0 < out@[j].0 by {
        assert(keys[i].cmp_spec(&keys[j]) is Less);
    }
    assert forall|i: int| 0 <= i < out@.len() implies paths@.contains_key(#[trigger] out@[i].0)
        && paths@[out@[i].0] == out@[i].1 by {
        assert(paths@.contains_key(*all[i].0));
    }
    assert forall|k: usize| paths@.contains_key(k) implies exists|i: int|
        0 <= i < out@.len() && #[trigger] out@[i].0 == k by {
        assert(all.contains((&k, &paths@[k])));
        let i = choose|i: int| 0 <= i < all.len() && all[i] == (&k, &paths@[k]);
        assert(out@[i].0 == k);
    }
    out
}

/// A mutable directed graph of named, shaped locations.
pub struct WorldMap {
    locations: Vec<Location>,
    name_to_index: StringHashMap<usize>,
    adjacency: Vec<BTreeMap<usize, Path>>,
}

impl View for WorldMap {
    type V = WorldMapView;

    closed spec fn view(&self) -> WorldMapView {
        WorldMapView {
            locations: self.locations@.map_values(|l: Location| l@),
            names: self.name_to_index@,
            paths: self.adjacency@.map_values(|m: BTreeMap<usize, Path>| m@),
        }
    }
}

impl WorldMap {
    /// The invariant of the map; `new` establishes it and every method
    /// keeps it.
    pub open spec fn wf(&self) -> bool {
        self@.wf()
    }

    /// An empty map.
    pub fn new() -> (r: Self)
        ensures
            r.wf(),
            r@ == WorldMapView::empty(),
    {
        let r = WorldMap {
            locations: Vec::new(),
            name_to_index: StringHashMap::new(),
            adjacency: Vec::new(),
        };
        assert(r@ =~= WorldMapView::empty());
        r
    }

    /// How many locations were ever added.
    pub(crate) fn node_count(&self) -> (n: usize)
        requires
            self.wf(),
        ensures
            n == self@.locations.len(),
            n == self@.paths.len(),
    {
        self.locations.len()
    }

    /// The location at `index`.
    pub(crate) fn location(&self, index: usize) -> (l: &Location)
        requires
            self@.in_range(index),
        ensures
            l@ == self@.locations[index as int],
    {
        &self.locations[index]
    }

    /// The paths that leave `from`, by ascending destination.
    pub(crate) fn paths_from(&self, from: usize) -> (r: Vec<(usize, Path)>)
        requires
            self.wf(),
            self@.in_range(from),
        ensures
            lists(r@, self@.paths[from as int]),
    {
        sorted_paths(&self.adjacency[from])
    }

    /// Adds a location and returns its index, the number of locations added
    /// before it. A name that is already in use is taken over by the new
    /// location.
    pub fn add_node(&mut self, name: &str, shape: NodeShape) -> (index: usize)
        requires
            old(self).wf(),
        ensures
            final(self).wf(),
            final(self)@ == old(self)@.add_node(name@, shape),
            index == old(self)@.locations.len(),
    {
        let index = self.locations.len();
        self.locations.push(Location { name: String::from_str(name), shape, removed: false });
        self.name_to_index.insert(String::from_str(name), index);
        self.adjacency.push(BTreeMap::new());
        assert(self@ =~= old(self)@.add_node(name@, shape));
        index
    }

    /// The index that `name` leads to, if it leads to a live location.
    pub fn get_index(&self, name: &str) -> (r: Option<usize>)
        requires
            self.wf(),
        ensures
            r == self@.get_index(name@),
    {
        match self.name_to_index.get(name) {
            Some(index) => {
                if *index < self.locations.len() && !self.locations[*index].removed {
                    Some(*index)
                } else {
                    None
                }
            },
            None => None,
        }
    }

    /// Sets the path from `from` to `to`; does nothing if either index is
    /// out of range.
    pub fn add_path(&mut self, from: usize, to: usize, distance: u32)
        requires
            old(self).wf(),
        ensures
            final(self).wf(),
            final(self)@ == old(self)@.add_path(from, to, distance),
    {
        if from >= self.locations.len() || to >= self.locations.len() {
            return ;
        }
        self.adjacency[from].insert(to, Path { distance });
        assert(self@ =~= old(self)@.add_path(from, to, distance));
    }

    /// Sets both the path from `a` to `b` and the path from `b` to `a`.
    pub fn add_bidirectional_path(&mut self, a: usize, b: usize, distance: u32)
        requires
            old(self).wf(),
        ensures
            final(self).wf(),
            final(self)@ == old(self)@.add_bidirectional_path(a, b, distance),
    {
        self.add_path(a, b, distance);
        self.add_path(b, a, distance);
    }

    /// Whether there is a path from `from` to `to`.
    pub fn has_directed_path(&self, from: usize, to: usize) -> (r: bool)
        requires
            self.wf(),
        ensures
            r == self@.has_directed_path(from, to),
    {
        from < self.adjacency.len() && self.adjacency[from].contains_key(&to)
    }

    /// Whether there are paths both ways between `a` and `b`.
    pub fn is_bidirectional(&self, a: usize, b: usize) -> (r: bool)
        requires
            self.wf(),
        ensures
            r == self@.is_bidirectional(a, b),
    {
        self.has_directed_path(a, b) && self.has_directed_path(b, a)
    }

    /// Removes the path from `from` to `to` and says whether there was one.
    pub fn remove_directed_path(&mut self, from: usize, to: usize) -> (existed: bool)
        requires
            old(self).wf(),
        ensures
            final(self).wf(),
            final(self)@ == old(self)@.remove_directed_path(from, to),
            existed == old(self)@.has_directed_path(from, to),
    {
        if from >= self.adjacency.len() {
            return false;
        }
        let removed = self.adjacency[from].remove(&to);
        assert(self@ =~= old(self)@.remove_directed_path(from, to));
        removed.is_some()
    }

    /// Removes the paths between `a` and `b`, each way on its own.
    pub fn remove_bidirectional_path(&mut self, a: usize, b: usize)
        requires
            old(self).wf(),
        ensures
            final(self).wf(),
            final(self)@ == old(self)@.remove_bidirectional_path(a, b),
    {
        self.remove_directed_path(a, b);
        self.remove_directed_path(b, a);
    }

    /// Removes a location: it keeps its index but loses its name, its
    /// outgoing paths and every path that leads to it. Does nothing if the
    /// index is out of range or the location was removed before.
    pub fn remove_node(&mut self, index: usize)
        requires
            old(self).wf(),
        ensures
            final(self).wf(),
            final(self)@ == old(self)@.remove_node(index),
    {
        if index >= self.locations.len() || self.locations[index].removed {
            return ;
        }
        let ghost before = self@;
        self.locations[index].removed = true;
        self.name_to_index.remove(self.locations[index].name.as_str());
        self.adjacency[index].clear();
        let n = self.adjacency.len();
        let mut i: usize = 0;
        while i < n
            invariant
                i <= n,
                n == self.adjacency.len(),
                n == before.paths.len(),
                before.is_active(index),
                self@.locations == before.remove_node(index).locations,
                self@.names == before.remove_node(index).names,
                forall|j: int|
                    0 <= j < i ==> #[trigger] self@.paths[j] == before.remove_node(index).paths[j],
                forall|j: int|
                    i <= j < n ==> #[trigger] self@.paths[j] == if j == index {
                        Map::empty()
                    } else {
                        before.paths[j]
                    },
            decreases n - i,
        {
            let ghost entry = self@;
            self.adjacency[i].remove(&index);
            proof {
                assert(self@.locations =~= entry.locations);
                assert(self@.paths[i as int] == entry.paths[i as int].remove(index));
                assert(self@.paths[i as int] =~= before.remove_node(index).paths[i as int]);
                assert forall|j: int| 0 <= j < i implies #[trigger] self@.paths[j]
                    == before.remove_node(index).paths[j] by {
                    assert(self@.paths[j] == entry.paths[j]);
                }
                assert forall|j: int| i < j < n implies #[trigger] self@.paths[j] == if j
                    == index {
                    Map::empty()
                } else {
                    before.paths[j]
                } by {
                    assert(self@.paths[j] == entry.paths[j]);
                }
            }
            i += 1;
        }
        assert(self@ =~= before.remove_node(index));
    }

    /// The destinations of the paths that leave `node`, in ascending order;
    /// empty if `node` is out of range or removed.
    pub fn neighbors(&self, node: usize) -> (r: Vec<usize>)
        requires
            self.wf(),
        ensures
            ascending(r@),
            r@.to_set() == self@.neighbors(node),
    {
        let mut out: Vec<usize> = Vec::new();
        if node >= self.locations.len() || self.locations[node].removed {
            assert(out@.to_set() =~= Set::empty());
            return out;
        }
        let entries = sorted_paths(&self.adjacency[node]);
        let mut i: usize = 0;
        while i < entries.len()
            invariant
                i <= entries.len(),
                out@.len() == i,
                forall|j: int| 0 <= j < i ==> out@[j] == entries@[j].0,
            decreases entries.len() - i,
        {
            out.push(entries[i].0);
            i += 1;
        }
        proof {
            let dom = self@.neighbors(node);
            assert forall|k: usize| out@.to_set().contains(k) <==> dom.contains(k) by {
                if out@.to_set().contains(k) {
                    let j = choose|j: int| 0 <= j < out@.len() && out@[j] == k;
                    assert(entries@[j].0 == k);
                }
                if dom.contains(k) {
                    let j = choose|j: int| 0 <= j < entries@.len() && entries@[j].0 == k;
                    assert(out@[j] == k);
                }
            }
            assert(out@.to_set() =~= dom);
        }
        out
    }
}

/// Every element is smaller than the ones after it.
pub open spec fn ascending(s: Seq<usize>) -> bool {
    forall|i: int, j: int| 0 <= i < j < s.len() ==> s[i] < s[j]
}

} // verus!
