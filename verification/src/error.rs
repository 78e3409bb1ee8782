//! Typed resolution failures.
//!
//! Every failure is a value; the matcher and the browser resolver never
//! panic.  The surrounding pipeline decides per variant whether to fall back
//! (`NotExported` with no `exports` field at all), to stop hard
//! (`ImportNotDefined`, `InvalidPackageTarget`), or to substitute an empty
//! module (`Ignored`).

use vstd::prelude::*;

verus! {

/// Mathematical model of a resolution failure.
pub enum SpecErr {
    NotExported,
    ImportNotDefined,
    InvalidPackageTarget,
    Ignored(Seq<char>),
    ParseFailure,
}

/// A resolution failure.
#[derive(Debug, PartialEq, Eq)]
pub enum ResolveError {
    /// The requested subpath has no matching `exports` entry.
    NotExported,
    /// The requested `#` specifier has no matching `imports` entry.
    ImportNotDefined,
    /// A target value violates the path-safety or pattern-capture contract.
    InvalidPackageTarget,
    /// A browser field maps this path to `false`: resolve the module to an
    /// intentionally empty stand-in.  Carries the path being resolved.
    Ignored(String),
    /// The manifest JSON is structurally incompatible with a required field
    /// shape.
    ParseFailure,
}

impl View for ResolveError {
    type V = SpecErr;

    open spec fn view(&self) -> SpecErr {
        match self {
            ResolveError::NotExported => SpecErr::NotExported,
            ResolveError::ImportNotDefined => SpecErr::ImportNotDefined,
            ResolveError::InvalidPackageTarget => SpecErr::InvalidPackageTarget,
            ResolveError::Ignored(p) => SpecErr::Ignored(p@),
            ResolveError::ParseFailure => SpecErr::ParseFailure,
        }
    }
}

} // verus!
