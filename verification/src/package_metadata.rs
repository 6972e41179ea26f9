use vstd::prelude::*;

verus! {

/// The flags and the priority of a package.
#[derive(Debug, Clone, Copy, PartialEq, Eq, Structural)]
pub struct PackageMetadata {
    pub flags: u8,
    pub priority: u8,
}

impl PackageMetadata {
    /// Metadata with flags and priority 0.
    pub fn new() -> (m: PackageMetadata)
        ensures
            m == (PackageMetadata { flags: 0, priority: 0 }),
    {
        PackageMetadata { flags: 0, priority: 0 }
    }
}

impl Default for PackageMetadata {
    fn default() -> (m: PackageMetadata)
        ensures
            m == (PackageMetadata { flags: 0, priority: 0 }),
    {
        PackageMetadata::new()
    }
}

} // verus!
