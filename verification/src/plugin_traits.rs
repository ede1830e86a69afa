//! The traits every plugin builds on.
use vstd::prelude::*;

verus! {

/// A plugin: runs on an input and gives an output or an error.
pub trait Plugin {
    type Input;

    type Output;

    type Error;

    fn execute(&self, input: Self::Input) -> Result<Self::Output, Self::Error>;
}

/// Something whose security can be checked.
pub trait SecurityVerifier {
    fn verify(&self) -> bool;

    fn security_level(&self) -> u8;
}

/// Something that refers to an LMFDB orbit.
pub trait LMFDBOrbitRef {
    fn lmfdb_orbit_id(&self) -> &str;

    fn lmfdb_complexity_class(&self) -> &str;
}

} // verus!
