//! The errors the library surfaces. The caller decides exit codes and
//! formatting; the library only returns a descriptive value.

use vstd::prelude::*;

verus! {

/// Why a run failed: the template name is not in the registry, or a
/// substitution pass rejected a template string mid-walk.
#[derive(Debug, PartialEq, Eq, Clone, Copy)]
pub enum ScaffoldError {
    TemplateNotFound,
    RenderFailed,
}

impl ScaffoldError {
    /// A short human-readable description.
    pub fn message(&self) -> (r: &'static str)
        ensures
            (*self is TemplateNotFound) ==> r@ == "template not found"@,
            (*self is RenderFailed) ==> r@ == "template rendering failed"@,
    {
        match self {
            ScaffoldError::TemplateNotFound => "template not found",
            ScaffoldError::RenderFailed => "template rendering failed",
        }
    }
}

} // verus!
