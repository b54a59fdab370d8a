//! Kernel of a Dhall interpreter: an algebraic representation of Dhall
//! expressions with capture-avoiding variable machinery (`shift`, `subst`),
//! a beta/iota normalizer, and a parser that turns source text into the
//! expression type.
use vstd::prelude::*;

pub mod ast;
pub mod binding;
pub mod normalize;

verus! {

/// Marker trait used to seal extension traits of this crate: outside crates
/// can name it but cannot gain capabilities from it.
pub trait Sealed {

}

impl Sealed for ast::Expr {

}

} // verus!
