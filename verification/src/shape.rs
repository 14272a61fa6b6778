//! The catalogue of node shapes and the bracket pair each one is drawn with.

use vstd::prelude::*;
use vstd::string::StringExecFns;

verus! {

/// The visual category of a location.
#[derive(Debug, Clone, Copy, PartialEq, Eq, Structural)]
pub enum NodeShape {
    Rectangle,
    Rounded,
    Circle,
    Rhombus,
    Hexagon,
    Stadium,
    Subroutine,
    Cylinder,
    DoubleCircle,
    Asymmetric,
}

impl NodeShape {
    /// The text that stands before the label.
    pub open spec fn opening(self) -> Seq<char> {
        match self {
            NodeShape::Rectangle => "["@,
            NodeShape::Rounded => "("@,
            NodeShape::Circle => "(("@,
            NodeShape::Rhombus => "{"@,
            NodeShape::Hexagon => "{{"@,
            NodeShape::Stadium => "(["@,
            NodeShape::Subroutine => "[["@,
            NodeShape::Cylinder => "[("@,
            NodeShape::DoubleCircle => "((("@,
            NodeShape::Asymmetric => ">"@,
        }
    }

    /// The text that stands after the label.
    pub open spec fn closing(self) -> Seq<char> {
        match self {
            NodeShape::Rectangle => "]"@,
            NodeShape::Rounded => ")"@,
            NodeShape::Circle => "))"@,
            NodeShape::Rhombus => "}"@,
            NodeShape::Hexagon => "}}"@,
            NodeShape::Stadium => "])"@,
            NodeShape::Subroutine => "]]"@,
            NodeShape::Cylinder => ")]"@,
            NodeShape::DoubleCircle => ")))"@,
            NodeShape::Asymmetric => "]"@,
        }
    }

    /// A label inside this shape's brackets.
    pub open spec fn wrapped(self, label: Seq<char>) -> Seq<char> {
        self.opening() + label + self.closing()
    }

    /// The opening bracket of this shape.
    pub fn open_bracket(&self) -> (r: &'static str)
        ensures
            r@ == self.opening(),
    {
        match self {
            NodeShape::Rectangle => "[",
            NodeShape::Rounded => "(",
            NodeShape::Circle => "((",
            NodeShape::Rhombus => "{",
            NodeShape::Hexagon => "{{",
            NodeShape::Stadium => "([",
            NodeShape::Subroutine => "[[",
            NodeShape::Cylinder => "[(",
            NodeShape::DoubleCircle => "(((",
            NodeShape::Asymmetric => ">",
        }
    }

    /// The closing bracket of this shape.
    pub fn close_bracket(&self) -> (r: &'static str)
        ensures
            r@ == self.closing(),
    {
        match self {
            NodeShape::Rectangle => "]",
            NodeShape::Rounded => ")",
            NodeShape::Circle => "))",
            NodeShape::Rhombus => "}",
            NodeShape::Hexagon => "}}",
            NodeShape::Stadium => "])",
            NodeShape::Subroutine => "]]",
            NodeShape::Cylinder => ")]",
            NodeShape::DoubleCircle => ")))",
            NodeShape::Asymmetric => "]",
        }
    }

    /// Wraps an already escaped label in this shape's brackets.
    pub fn wrap(&self, label: &str) -> (r: String)
        ensures
            r@ == self.wrapped(label@),
    {
        let mut out = String::from_str(self.open_bracket());
        out.append(label);
        out.append(self.close_bracket());
        out
    }
}

} // verus!
