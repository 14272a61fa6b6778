use xrpg::shape::NodeShape;
use xrpg::text::{push_decimal, sanitize};

#[test]
fn sanitize_leaves_plain_text_alone() {
    assert_eq!(sanitize(""), "");
    assert_eq!(sanitize("Home Town"), "Home Town");
    assert_eq!(sanitize("Dragon's Cave"), "Dragon's Cave");
    assert_eq!(sanitize("#;"), "#;");
    assert_eq!(sanitize("caf\u{e9} \u{1F409}"), "caf\u{e9} \u{1F409}");
}

#[test]
fn sanitize_escapes_each_unsafe_character() {
    assert_eq!(sanitize("\""), "#quot;");
    assert_eq!(sanitize("&"), "#amp;");
    assert_eq!(sanitize("<"), "#lt;");
    assert_eq!(sanitize(">"), "#gt;");
    assert_eq!(sanitize("|"), "#124;");
}

#[test]
fn sanitize_keeps_the_order() {
    assert_eq!(sanitize("<<a>>"), "#lt;#lt;a#gt;#gt;");
    assert_eq!(sanitize("Tom & \"Jerry\" |x|"), "Tom #amp; #quot;Jerry#quot; #124;x#124;");
}

#[test]
fn sanitized_text_has_no_unsafe_character() {
    for label in ["\"&<>|", "a|b", "<script>", "&amp;", "\"\"\"", "plain"] {
        let out = sanitize(label);
        assert!(!out.contains(['"', '&', '<', '>', '|']));
    }
}

#[test]
fn decimal_numerals() {
    for (n, expected) in [
        (0u64, "0"),
        (7, "7"),
        (9, "9"),
        (10, "10"),
        (45, "45"),
        (100, "100"),
        (1234567890, "1234567890"),
        (u64::MAX, "18446744073709551615"),
    ] {
        let mut out = String::new();
        push_decimal(&mut out, n);
        assert_eq!(out, expected);
    }
}

#[test]
fn decimal_is_appended() {
    let mut out = String::from("n=");
    push_decimal(&mut out, 42);
    push_decimal(&mut out, 0);
    assert_eq!(out, "n=420");
}

#[test]
fn every_shape_wraps_its_label() {
    assert_eq!(NodeShape::Rectangle.wrap("x"), "[x]");
    assert_eq!(NodeShape::Rounded.wrap("x"), "(x)");
    assert_eq!(NodeShape::Circle.wrap("x"), "((x))");
    assert_eq!(NodeShape::Rhombus.wrap("x"), "{x}");
    assert_eq!(NodeShape::Hexagon.wrap("x"), "{{x}}");
    assert_eq!(NodeShape::Stadium.wrap("x"), "([x])");
    assert_eq!(NodeShape::Subroutine.wrap("x"), "[[x]]");
    assert_eq!(NodeShape::Cylinder.wrap("x"), "[(x)]");
    assert_eq!(NodeShape::DoubleCircle.wrap("x"), "(((x)))");
    assert_eq!(NodeShape::Asymmetric.wrap("x"), ">x]");
    assert_eq!(NodeShape::Circle.wrap(""), "(())");
}

#[test]
fn shapes_have_distinct_templates() {
    let all = [
        NodeShape::Rectangle,
        NodeShape::Rounded,
        NodeShape::Circle,
        NodeShape::Rhombus,
        NodeShape::Hexagon,
        NodeShape::Stadium,
        NodeShape::Subroutine,
        NodeShape::Cylinder,
        NodeShape::DoubleCircle,
        NodeShape::Asymmetric,
    ];
    for (i, a) in all.iter().enumerate() {
        assert_eq!(format!("{}{}", a.open_bracket(), a.close_bracket()), a.wrap(""));
        for b in &all[i + 1..] {
            assert_ne!(a.wrap("x"), b.wrap("x"));
        }
    }
}
