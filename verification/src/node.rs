//! The tree of mathematical constructs that is rendered.

use vstd::prelude::*;
use crate::math_class::MathClass;
use crate::style::StyleOverride;

verus! {

/// Where the cells of a table put their content.
#[derive(Clone, Copy, Debug, PartialEq, Eq)]
pub enum Alignment {
    Start,
    Center,
    End,
}

/// An amount of horizontal space.
#[derive(Debug)]
pub enum Spacing {
    /// A length, given as text: a number and its unit.
    Relative(String),
    /// A share of the space that is left over.
    Fractional,
}

/// A stretching mark under or over a body.
#[derive(Clone, Copy, Debug, PartialEq, Eq)]
pub enum Decoration {
    Underbrace,
    Overbrace,
    Underbracket,
    Overbracket,
    Underparen,
    Overparen,
    Undershell,
    Overshell,
}

/// One mathematical construct. Every child belongs to its parent alone.
#[derive(Debug)]
pub enum Node {
    Fraction { numerator: Box<Node>, denominator: Box<Node> },
    Accent { base: Box<Node>, accent: char },
    /// A body whose scripts go above and below it.
    Limits { body: Box<Node> },
    /// A body whose scripts go beside it.
    Scripts { body: Box<Node> },
    Sequence { children: Vec<Node> },
    /// A body between delimiters that grow with it.
    Lr { body: Box<Node> },
    Attach {
        base: Box<Node>,
        top: Option<Box<Node>>,
        bottom: Option<Box<Node>>,
        top_left: Option<Box<Node>>,
        bottom_left: Option<Box<Node>>,
        top_right: Option<Box<Node>>,
        bottom_right: Option<Box<Node>>,
    },
    Text { raw: String },
    Root { radicand: Box<Node>, index: Option<Box<Node>> },
    Binomial { upper: Box<Node>, lower: Vec<Node> },
    Cancel { body: Box<Node> },
    /// A named operator; `limits` says that it keeps its scripts above and
    /// below it.
    Op { label: Box<Node>, limits: bool },
    Cases { open: Option<char>, close: Option<char>, reverse: bool, children: Vec<Node> },
    Matrix { open: Option<char>, close: Option<char>, align: Alignment, rows: Vec<Vec<Node>> },
    Vector { open: Option<char>, close: Option<char>, align: Alignment, children: Vec<Node> },
    /// A body that is set as if it had the given class.
    Class { class: MathClass, body: Box<Node> },
    Equation { body: Box<Node> },
    Primes { count: usize },
    Styled { style: StyleOverride, child: Box<Node> },
    HSpace { amount: Spacing },
    Hide { body: Box<Node> },
    Stretch { body: Box<Node> },
    Mid { body: Box<Node> },
    Underline { body: Box<Node> },
    Overline { body: Box<Node> },
    Decorated { mark: Decoration, body: Box<Node>, annotation: Option<Box<Node>> },
    Space,
    AlignPoint,
    Linebreak,
    /// A construct that has no rendering; `kind` is its name.
    Unknown { kind: String },
}

} // verus!
