use xrpg::graph::WorldMap;
use xrpg::shape::NodeShape;

const FOOTER: &str = "classDef default fill:#f9f,stroke:#333,stroke-width:2px;\n\
linkStyle default stroke:#333,stroke-width:2px;\n";

fn scenario() -> WorldMap {
    let mut map = WorldMap::new();
    let town = map.add_node("Town", NodeShape::Circle);
    let dungeon = map.add_node("Dungeon", NodeShape::Asymmetric);
    let cave = map.add_node("Cave", NodeShape::Rhombus);
    let forest = map.add_node("Forest", NodeShape::Stadium);
    let castle = map.add_node("Castle", NodeShape::Hexagon);
    map.add_bidirectional_path(town, forest, 15);
    map.add_bidirectional_path(town, castle, 25);
    map.add_path(forest, dungeon, 45);
    map.add_bidirectional_path(dungeon, cave, 30);
    map.add_bidirectional_path(castle, dungeon, 10);
    map
}

#[test]
fn empty_map_has_header_and_styling_only() {
    let map = WorldMap::new();
    assert_eq!(map.to_mermaid(), format!("graph LR\n{}", FOOTER));
}

#[test]
fn scenario_diagram() {
    let map = scenario();
    let expected = format!(
        "graph LR\n\
         0((Town))\n\
         1>Dungeon]\n\
         2{{Cave}}\n\
         3([Forest])\n\
         4{{{{Castle}}}}\n\
         0 <--> |15 min| 3\n\
         0 <--> |25 min| 4\n\
         1 <--> |30 min| 2\n\
         1 <--> |10 min| 4\n\
         3 --> |45 min| 1\n\
         {}",
        FOOTER
    );
    assert_eq!(map.to_mermaid(), expected);
}

#[test]
fn scenario_diagram_after_removals() {
    let mut map = scenario();
    map.remove_directed_path(3, 1);
    assert!(!map.to_mermaid().contains("3 --> |45 min| 1"));
    map.remove_node(1);
    let text = map.to_mermaid();
    assert!(!text.contains("Dungeon"));
    assert!(!text.lines().any(|l| l.starts_with("1>") || l.starts_with("1 ")));
    let expected = format!(
        "graph LR\n\
         0((Town))\n\
         2{{Cave}}\n\
         3([Forest])\n\
         4{{{{Castle}}}}\n\
         0 <--> |15 min| 3\n\
         0 <--> |25 min| 4\n\
         {}",
        FOOTER
    );
    assert_eq!(text, expected);
    let village = map.add_node("Village", NodeShape::Rounded);
    map.add_bidirectional_path(0, village, 20);
    let expected = format!(
        "graph LR\n\
         0((Town))\n\
         2{{Cave}}\n\
         3([Forest])\n\
         4{{{{Castle}}}}\n\
         5(Village)\n\
         0 <--> |15 min| 3\n\
         0 <--> |25 min| 4\n\
         0 <--> |20 min| 5\n\
         {}",
        FOOTER
    );
    assert_eq!(map.to_mermaid(), expected);
}

#[test]
fn same_operations_give_the_same_text() {
    let a = scenario();
    let b = scenario();
    assert_eq!(a.to_mermaid(), b.to_mermaid());
    assert_eq!(a.to_mermaid().into_bytes(), b.to_mermaid().into_bytes());
}

#[test]
fn insertion_order_of_paths_does_not_show() {
    let mut a = WorldMap::new();
    let mut b = WorldMap::new();
    for map in [&mut a, &mut b] {
        map.add_node("X", NodeShape::Rectangle);
        map.add_node("Y", NodeShape::Rectangle);
        map.add_node("Z", NodeShape::Rectangle);
    }
    a.add_path(0, 2, 5);
    a.add_path(0, 1, 6);
    a.add_path(2, 1, 7);
    b.add_path(2, 1, 7);
    b.add_path(0, 1, 6);
    b.add_path(0, 2, 5);
    let expected = format!(
        "graph LR\n0[X]\n1[Y]\n2[Z]\n0 --> |6 min| 1\n0 --> |5 min| 2\n2 --> |7 min| 1\n{}",
        FOOTER
    );
    assert_eq!(a.to_mermaid(), expected);
    assert_eq!(b.to_mermaid(), expected);
}

#[test]
fn two_way_line_bears_the_distance_of_the_smaller_source() {
    let mut map = WorldMap::new();
    let a = map.add_node("A", NodeShape::Rectangle);
    let b = map.add_node("B", NodeShape::Rectangle);
    map.add_path(b, a, 99);
    map.add_path(a, b, 11);
    let expected = format!("graph LR\n0[A]\n1[B]\n0 <--> |11 min| 1\n{}", FOOTER);
    assert_eq!(map.to_mermaid(), expected);
}

#[test]
fn self_loop_is_drawn_two_way() {
    let mut map = WorldMap::new();
    let a = map.add_node("A", NodeShape::Rectangle);
    map.add_path(a, a, 1);
    let expected = format!("graph LR\n0[A]\n0 <--> |1 min| 0\n{}", FOOTER);
    assert_eq!(map.to_mermaid(), expected);
}

#[test]
fn paths_at_removed_locations_are_not_drawn() {
    let mut map = WorldMap::new();
    let a = map.add_node("A", NodeShape::Rectangle);
    let b = map.add_node("B", NodeShape::Rectangle);
    let c = map.add_node("C", NodeShape::Rectangle);
    map.remove_node(b);
    map.add_path(a, b, 1);
    map.add_path(b, c, 2);
    map.add_path(a, c, 3);
    let expected = format!("graph LR\n0[A]\n2[C]\n0 --> |3 min| 2\n{}", FOOTER);
    assert_eq!(map.to_mermaid(), expected);
}

#[test]
fn every_shape_has_its_brackets_in_the_diagram() {
    let mut map = WorldMap::new();
    map.add_node("a", NodeShape::Rectangle);
    map.add_node("b", NodeShape::Rounded);
    map.add_node("c", NodeShape::Circle);
    map.add_node("d", NodeShape::Rhombus);
    map.add_node("e", NodeShape::Hexagon);
    map.add_node("f", NodeShape::Stadium);
    map.add_node("g", NodeShape::Subroutine);
    map.add_node("h", NodeShape::Cylinder);
    map.add_node("i", NodeShape::DoubleCircle);
    map.add_node("j", NodeShape::Asymmetric);
    map.add_node("k", NodeShape::Rectangle);
    let expected = format!(
        "graph LR\n0[a]\n1(b)\n2((c))\n3{{d}}\n4{{{{e}}}}\n5([f])\n6[[g]]\n7[(h)]\n8(((i)))\n9>j]\n10[k]\n{}",
        FOOTER
    );
    assert_eq!(map.to_mermaid(), expected);
}

#[test]
fn labels_are_escaped_in_the_diagram() {
    let mut map = WorldMap::new();
    map.add_node("a\"b&c<d>e|f", NodeShape::Rectangle);
    let expected = format!("graph LR\n0[a#quot;b#amp;c#lt;d#gt;e#124;f]\n{}", FOOTER);
    assert_eq!(map.to_mermaid(), expected);
    assert_eq!(map.get_index("a\"b&c<d>e|f"), Some(0));
}

#[test]
fn large_numbers_are_written_in_full() {
    let mut map = WorldMap::new();
    for _ in 0..12 {
        map.add_node("n", NodeShape::Rounded);
    }
    map.add_path(10, 11, u32::MAX);
    map.add_path(11, 0, 0);
    map.add_path(0, 10, 100);
    let text = map.to_mermaid();
    assert!(text.contains("\n10(n)\n11(n)\n"));
    assert!(text.contains("\n0 --> |100 min| 10\n10 --> |4294967295 min| 11\n11 --> |0 min| 0\n"));
}
