//! Why a tree could not be rendered.

use vstd::prelude::*;

verus! {

/// The failure of a renderer. No partial result comes with it.
#[derive(Clone, Debug, PartialEq, Eq)]
pub enum RenderError {
    /// The tree holds a shape that the target notation has no rendering for.
    UnsupportedConstruct,
    /// The tree applies the named operator, which the operator table lacks.
    UnknownOperator(String),
}

/// What a [`RenderError`] says, with text as a sequence of characters.
pub ghost enum Failure {
    UnsupportedConstruct,
    UnknownOperator(Seq<char>),
}

impl View for RenderError {
    type V = Failure;

    open spec fn view(&self) -> Failure {
        match self {
            RenderError::UnsupportedConstruct => Failure::UnsupportedConstruct,
            RenderError::UnknownOperator(name) => Failure::UnknownOperator(name@),
        }
    }
}

} // verus!
