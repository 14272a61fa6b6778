//! The export of a map as Mermaid flowchart text.

use crate::graph::{lists, Path, WorldMap, WorldMapView};
use crate::text::{decimal, push_decimal, sanitize, sanitized};
use std::collections::BTreeSet;
use vstd::prelude::*;
use vstd::string::StringExecFns;

verus! {

broadcast use {vstd::std_specs::btree::group_btree_axioms, vstd::laws_cmp::group_laws_cmp};

/// The first line: a flowchart that runs from left to right.
pub open spec fn header() -> Seq<char> {
    "graph LR\n"@
}

/// The two styling lines that end every diagram.
pub open spec fn footer() -> Seq<char> {
    "classDef default fill:#f9f,stroke:#333,stroke-width:2px;\n"@
        + "linkStyle default stroke:#333,stroke-width:2px;\n"@
}

/// The declaration of the location at `index`: its index and its escaped
/// name inside its shape's brackets. A removed location has none.
pub open spec fn node_line(m: WorldMapView, index: int) -> Seq<char> {
    let l = m.locations[index];
    if l.removed {
        Seq::empty()
    } else {
        decimal(index as nat) + l.shape.wrapped(sanitized(l.name)) + "\n"@
    }
}

/// The declarations of the locations below `upto`, by ascending index.
pub open spec fn node_lines(m: WorldMapView, upto: nat) -> Seq<char>
    decreases upto,
{
    if upto == 0 {
        Seq::empty()
    } else {
        node_lines(m, (upto - 1) as nat) + node_line(m, upto - 1)
    }
}

/// Whether the path from `from` to `to` gets a line of its own: it exists,
/// both ends are live, and it is not the second half of a two-way pair
/// whose first half, the one that leaves the smaller index, stands for both.
pub open spec fn is_drawn(m: WorldMapView, from: usize, to: usize) -> bool {
    &&& m.has_directed_path(from, to)
    &&& m.is_active(from)
    &&& m.is_active(to)
    &&& !(to < from && m.has_directed_path(to, from))
}

/// The line of the path from `from` to `to`, labelled with that path's own
/// distance; a two-way arrow if the opposite path exists as well.
pub open spec fn edge_line(m: WorldMapView, from: usize, to: usize) -> Seq<char> {
    if is_drawn(m, from, to) {
        decimal(from as nat) + (if m.has_directed_path(to, from) {
            " <--> |"@
        } else {
            " --> |"@
        }) + decimal(m.paths[from as int][to].distance as nat) + " min| "@ + decimal(to as nat)
            + "\n"@
    } else {
        Seq::empty()
    }
}

/// The lines of the paths from `from` to the destinations below `upto`, by
/// ascending destination.
pub open spec fn lines_from(m: WorldMapView, from: usize, upto: nat) -> Seq<char>
    decreases upto,
{
    if upto == 0 {
        Seq::empty()
    } else {
        lines_from(m, from, (upto - 1) as nat) + edge_line(m, from, (upto - 1) as usize)
    }
}

/// The lines of the paths that leave the sources below `upto`, by ascending
/// source.
pub open spec fn edge_lines(m: WorldMapView, upto: nat) -> Seq<char>
    decreases upto,
{
    if upto == 0 {
        Seq::empty()
    } else {
        edge_lines(m, (upto - 1) as nat) + lines_from(
            m,
            (upto - 1) as usize,
            m.locations.len(),
        )
    }
}

/// The whole diagram of a map.
pub open spec fn diagram(m: WorldMapView) -> Seq<char> {
    header() + node_lines(m, m.locations.len()) + edge_lines(m, m.locations.len()) + footer()
}

/// Whether the pair `(a, b)` comes before `(from, to)` in the walk over all
/// pairs, by source and then by destination.
spec fn walked(a: usize, b: usize, from: nat, to: nat) -> bool {
    a < from || (a == from && b < to)
}

/// Whether the walk, on reaching `(from, to)`, has recorded the pair `p` as
/// drawn: `p` or its opposite was drawn as a two-way line.
spec fn recorded(m: WorldMapView, from: nat, to: nat, p: (usize, usize)) -> bool {
    m.is_bidirectional(p.0, p.1) && ((walked(p.0, p.1, from, to) && is_drawn(m, p.0, p.1)) || (
    walked(p.1, p.0, from, to) && is_drawn(m, p.1, p.0)))
}

/// The destination that the walk over `entries` stands before at position
/// `j`; `n` when it is through.
spec fn reach(entries: Seq<(usize, Path)>, j: int, n: nat) -> nat {
    if j < entries.len() {
        entries[j].0 as nat
    } else {
        n
    }
}

/// Destinations without a path add nothing to the lines of a source.
proof fn lemma_lines_skip(m: WorldMapView, from: usize, lo: nat, hi: nat)
    requires
        lo <= hi <= usize::MAX + 1,
        forall|t: usize| lo <= t < hi ==> !m.has_directed_path(from, t),
    ensures
        lines_from(m, from, hi) == lines_from(m, from, lo),
    decreases hi,
{
    if lo < hi {
        lemma_lines_skip(m, from, lo, (hi - 1) as nat);
        assert(!m.has_directed_path(from, (hi - 1) as usize));
        assert(lines_from(m, from, hi) =~= lines_from(m, from, (hi - 1) as nat));
    }
}

/// Between two neighbouring entries of a listing, and below the first and
/// above the last, there is no path.
proof fn lemma_no_path_between(m: WorldMapView, from: usize, entries: Seq<(usize, Path)>, j: int)
    requires
        m.wf(),
        m.in_range(from),
        lists(entries, m.paths[from as int]),
        0 <= j <= entries.len(),
    ensures
        forall|t: usize|
            (if j == 0 {
                0
            } else {
                entries[j - 1].0 + 1
            }) <= t < reach(entries, j, m.locations.len()) ==> !m.has_directed_path(from, t),
{
    assert forall|t: usize|
        (if j == 0 {
            0
        } else {
            entries[j - 1].0 + 1
        }) <= t < reach(entries, j, m.locations.len()) implies !m.has_directed_path(from, t) by {
        if m.has_directed_path(from, t) {
            let i = choose|i: int| 0 <= i < entries.len() && entries[i].0 == t;
            if i < j {
                if i < j - 1 {
                    assert(entries[i].0 < entries[j - 1].0);
                }
            } else {
                if j < i {
                    assert(entries[j].0 < entries[i].0);
                }
            }
        }
    }
}

/// Writes the declarations of all live locations.
fn write_nodes(map: &WorldMap, out: &mut String)
    requires
        map.wf(),
    ensures
        final(out)@ == old(out)@ + node_lines(map@, map@.locations.len()),
{
    let n = map.node_count();
    let ghost start = out@;
    let mut i: usize = 0;
    assert(out@ =~= start + node_lines(map@, 0));
    while i < n
        invariant
            i <= n,
            n == map@.locations.len(),
            out@ == start + node_lines(map@, i as nat),
        decreases n - i,
    {
        let location = map.location(i);
        let ghost before = out@;
        if !location.removed {
            push_decimal(out, i as u64);
            let label = sanitize(location.name.as_str());
            let node = location.shape.wrap(label.as_str());
            out.append(node.as_str());
            out.append("\n");
        }
        proof {
            assert(out@ =~= before + node_line(map@, i as int));
            assert(out@ =~= start + node_lines(map@, (i + 1) as nat));
        }
        i += 1;
    }
}

/// Writes the lines of the paths that leave `from`, and records the pairs
/// that a two-way line has covered.
fn write_paths_from(
    map: &WorldMap,
    from: usize,
    out: &mut String,
    drawn: &mut BTreeSet<(usize, usize)>,
)
    requires
        map.wf(),
        map@.in_range(from),
        forall|p: (usize, usize)| old(drawn)@.contains(p) <==> recorded(map@, from as nat, 0, p),
    ensures
        final(out)@ == old(out)@ + lines_from(map@, from, map@.locations.len()),
        forall|p: (usize, usize)|
            final(drawn)@.contains(p) <==> recorded(map@, (from + 1) as nat, 0, p),
{
    let ghost m = map@;
    let ghost start = out@;
    let n = map.node_count();
    let entries = map.paths_from(from);
    let from_live = !map.location(from).removed;
    let mut j: usize = 0;
    proof {
        lemma_no_path_between(m, from, entries@, 0);
        lemma_lines_skip(m, from, 0, reach(entries@, 0, n as nat));
        assert(out@ =~= start + lines_from(m, from, 0));
    }
    while j < entries.len()
        invariant
            j <= entries.len(),
            m == map@,
            map.wf(),
            m.in_range(from),
            n == m.locations.len(),
            from_live == m.is_active(from),
            lists(entries@, m.paths[from as int]),
            out@ == start + lines_from(m, from, reach(entries@, j as int, n as nat)),
            forall|p: (usize, usize)|
                drawn@.contains(p) <==> recorded(
                    m,
                    from as nat,
                    reach(entries@, j as int, n as nat),
                    p,
                ),
        decreases entries.len() - j,
    {
        let to = entries[j].0;
        let distance = entries[j].1.distance;
        let ghost before = out@;
        let ghost seen = drawn@;
        assert(m.has_directed_path(from, to));
        if from_live && !map.location(to).removed && !drawn.contains(&(from, to)) {
            let both = map.is_bidirectional(from, to);
            push_decimal(out, from as u64);
            if both {
                out.append(" <--> |");
            } else {
                out.append(" --> |");
            }
            push_decimal(out, distance as u64);
            out.append(" min| ");
            push_decimal(out, to as u64);
            out.append("\n");
            if both {
                drawn.insert((from, to));
                drawn.insert((to, from));
            }
            assert(is_drawn(m, from, to));
        } else {
            assert(!is_drawn(m, from, to));
        }
        j += 1;
        proof {
            assert(out@ =~= before + edge_line(m, from, to));
            assert(out@ =~= start + lines_from(m, from, (to + 1) as nat));
            lemma_no_path_between(m, from, entries@, j as int);
            lemma_lines_skip(m, from, (to + 1) as nat, reach(entries@, j as int, n as nat));
            assert forall|p: (usize, usize)|
                drawn@.contains(p) <==> recorded(
                    m,
                    from as nat,
                    reach(entries@, j as int, n as nat),
                    p,
                ) by {
                assert(seen.contains(p) <==> recorded(m, from as nat, to as nat, p));
            }
        }
    }
    proof {
        assert forall|p: (usize, usize)|
            drawn@.contains(p) <==> recorded(m, (from + 1) as nat, 0, p) by {
            assert(drawn@.contains(p) <==> recorded(m, from as nat, n as nat, p));
        }
    }
}

impl WorldMap {
    /// The diagram of the map as it stands: the header, one declaration for
    /// each live location by index, one line for each path between live
    /// locations by source and destination, a two-way pair drawn once with
    /// the distance of the path that leaves the smaller index, and the two
    /// styling lines.
    pub fn to_mermaid(&self) -> (r: String)
        requires
            self.wf(),
        ensures
            r@ == diagram(self@),
    {
        let mut out = String::from_str("graph LR\n");
        write_nodes(self, &mut out);
        let n = self.node_count();
        let ghost start = out@;
        let mut drawn: BTreeSet<(usize, usize)> = BTreeSet::new();
        let mut from: usize = 0;
        assert(out@ =~= start + edge_lines(self@, 0));
        while from < n
            invariant
                from <= n,
                self.wf(),
                n == self@.locations.len(),
                out@ == start + edge_lines(self@, from as nat),
                forall|p: (usize, usize)|
                    drawn@.contains(p) <==> recorded(self@, from as nat, 0, p),
            decreases n - from,
        {
            write_paths_from(self, from, &mut out, &mut drawn);
            proof {
                assert(out@ =~= start + edge_lines(self@, (from + 1) as nat));
            }
            from += 1;
        }
        out.append("classDef default fill:#f9f,stroke:#333,stroke-width:2px;\n");
        out.append("linkStyle default stroke:#333,stroke-width:2px;\n");
        assert(out@ =~= diagram(self@));
        out
    }
}

} // verus!
