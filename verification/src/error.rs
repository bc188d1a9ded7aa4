use vstd::prelude::*;

verus! {

/// Why a run of the scaffolding flow failed.
#[derive(Clone, Copy, Debug, PartialEq, Eq, Structural)]
pub enum Error {
    /// No project name could be derived from the project root and none was typed.
    InvalidProjectRoot,
    /// The license candidate list did not yield a usable entry: the list was
    /// empty, the lookup for the default failed, or the chosen index was out
    /// of range.
    LicenseNotFound,
}

impl Error {
    /// A human-readable description of the failure.
    pub fn message(&self) -> (r: &'static str)
        ensures
            *self is InvalidProjectRoot ==> r@ == "invalid project root"@,
            *self is LicenseNotFound ==> r@ == "license not found"@,
    {
        match self {
            Error::InvalidProjectRoot => "invalid project root",
            Error::LicenseNotFound => "license not found",
        }
    }
}

} // verus!
