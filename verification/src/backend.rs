//! The contract that optional backends implement. The core language
//! depends on this trait, never on a particular operating system, runtime,
//! accelerator or device.

use vstd::prelude::*;
use crate::language::{Flow, Space, SpaceV};

verus! {

/// The kinds of backends.
#[derive(Debug, Clone, Copy, PartialEq, Eq, Structural)]
pub enum BackendKind {
    PortableC99,
}

/// A backend lowers checked flows to code for some target. It must support
/// the spaces of a flow before it lowers it.
pub trait Backend {
    /// The spaces whose values this backend can represent.
    spec fn represents(&self, space: SpaceV) -> bool;

    /// The kind of this backend.
    fn kind(&self) -> BackendKind;

    /// Whether this backend can represent values of `space`.
    fn supports(&self, space: &Space) -> (r: bool)
        ensures
            r == self.represents(space@),
    ;

    /// Lowers a checked flow to target code, or says why it cannot. A
    /// flow is lowered only when the backend supports both its spaces.
    fn lower(&self, flow: &Flow) -> (r: Result<String, String>)
        ensures
            r is Ok ==> self.represents(flow@.domain()) && self.represents(flow@.codomain()),
    ;
}

} // verus!
