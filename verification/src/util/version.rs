use vstd::prelude::*;

verus! {

/// A semantic version: major, minor, patch.
#[derive(Clone, Copy, Debug)]
pub struct SemVer {
    major: u32,
    minor: u32,
    patch: u32,
}

} // verus!
