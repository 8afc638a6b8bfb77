//! The outcome of scanning one translation unit for a target function.

use std::collections::HashMap;

use vstd::prelude::*;

use crate::ast::File;
use crate::ast::FileV;
use crate::ast::Function;
use crate::ast::FunctionV;

verus! {

/// The abstract value of a file table: each bound index mapped to the
/// abstract value of its binding.
pub open spec fn table_view(m: Map<usize, File>) -> Map<usize, FileV> {
    Map::new(|k: usize| m.contains_key(k), |k: usize| m[k]@)
}

/// Result of parsing a function: either the reconstructed function together
/// with every file binding needed to resolve its locations, or the ordered
/// list of demangled symbols that the unit defines instead.
#[derive(Debug)]
pub enum Result {
    Found(Function, HashMap<usize, File>),
    NotFound(Vec<String>),
}

/// The abstract value of a [`Result`].
pub ghost enum OutcomeV {
    Found(FunctionV, Map<usize, FileV>),
    NotFound(Seq<Seq<char>>),
}

impl View for Result {
    type V = OutcomeV;

    open spec fn view(&self) -> OutcomeV {
        match self {
            Result::Found(f, t) => OutcomeV::Found(f@, table_view(t@)),
            Result::NotFound(syms) => OutcomeV::NotFound(syms@.map_values(|s: String| s@)),
        }
    }
}

} // verus!
