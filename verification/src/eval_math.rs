//! The outcome of evaluating the source of an equation.
//!
//! The evaluation itself happens outside this library. What it came to is
//! handed in as an [`Evaluation`]; [`eval`] says what that means for the
//! caller: an equation to render, or one of two failures.

use vstd::prelude::*;
use crate::node::Node;
use crate::style::StyleOverride;

verus! {

/// Why the evaluation of a source text gave no equation.
#[derive(Clone, Copy, Debug, PartialEq, Eq, Structural)]
pub enum EvalMathResult {
    /// The source could not be evaluated.
    CompilerInnerError,
    /// The source was evaluated and holds no equation.
    NoEquationError,
}

/// What the evaluator reported.
#[derive(Debug)]
pub enum Evaluation {
    /// The evaluator stopped with an error.
    Failed,
    /// The evaluator ran through. `equation` is the first equation of the
    /// document, if it holds one; `style` is what the document sets around
    /// its content, if anything.
    Evaluated { equation: Option<Node>, style: Option<StyleOverride> },
}

/// What an evaluation comes to: the first equation with the style around it,
/// or the reason why there is none.
pub open spec fn evaluated(outcome: Evaluation) -> Result<
    (Node, Option<StyleOverride>),
    EvalMathResult,
> {
    match outcome {
        Evaluation::Failed => Err(EvalMathResult::CompilerInnerError),
        Evaluation::Evaluated { equation: None, style } => Err(EvalMathResult::NoEquationError),
        Evaluation::Evaluated { equation: Some(node), style } => Ok((node, style)),
    }
}

/// Turns the report of the evaluator into an equation to render or a typed
/// failure.
pub fn eval(outcome: Evaluation) -> (r: Result<(Node, Option<StyleOverride>), EvalMathResult>)
    ensures
        r == evaluated(outcome),
{
    match outcome {
        Evaluation::Failed => Err(EvalMathResult::CompilerInnerError),
        Evaluation::Evaluated { equation, style } => match equation {
            Some(node) => Ok((node, style)),
            None => Err(EvalMathResult::NoEquationError),
        },
    }
}

} // verus!
