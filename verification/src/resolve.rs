//! Why a material's dependencies could not be resolved.
use vstd::prelude::*;
use crate::shader::ShaderTypeMismatch;

verus! {

/// A dependency of a material could not be resolved.
#[derive(Debug)]
pub enum ResolutionError {
    /// A handle did not resolve to a ready asset.
    UnresolvedDependecy,
    /// A shader was used for a stage it has no entry point for.
    ShaderTypeMismatch(ShaderTypeMismatch),
}

impl From<ShaderTypeMismatch> for ResolutionError {
    fn from(value: ShaderTypeMismatch) -> (r: Self) {
        ResolutionError::ShaderTypeMismatch(value)
    }
}

impl vstd::std_specs::convert::FromSpecImpl<ShaderTypeMismatch> for ResolutionError {
    open spec fn obeys_from_spec() -> bool {
        true
    }

    open spec fn from_spec(v: ShaderTypeMismatch) -> Self {
        ResolutionError::ShaderTypeMismatch(v)
    }
}

} // verus!
