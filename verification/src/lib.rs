//! Renders a tree of mathematical expression nodes as MathML markup.
//!
//! The tree is described by [`node::Node`], the style that surrounds a node by
//! [`style::StyleContext`]. [`mathml::render`] turns a node into markup and
//! [`mathml::convert_to_mathml`] wraps a whole equation into a `<math>` element.
//! Every function carries a contract that says, over sequences of characters,
//! which markup it returns.

pub mod attach;
pub mod depth;
pub mod escape;
pub mod eval_math;
pub mod layout;
pub mod math_class;
pub mod mathml;
pub mod node;
pub mod number;
pub mod style;
pub mod text;
