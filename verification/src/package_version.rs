use vstd::prelude::*;
use vstd::std_specs::convert::TryFromSpecImpl;
use crate::error::Error;

verus! {

/// The version of the package format.
#[derive(Debug, Clone, Copy, PartialEq, Eq, Structural)]
pub enum PackageVersion {
    /// No package was read.
    Unset,
    V18,
}

impl PackageVersion {
    /// The tag that stands for the version in a file; `Unset` has none.
    pub open spec fn spec_tag(self) -> Option<u32> {
        match self {
            PackageVersion::Unset => None,
            PackageVersion::V18 => Some(18),
        }
    }

    /// The tag that stands for the version in a file; `Unset` has none.
    pub fn tag(self) -> (t: Option<u32>)
        ensures
            t == self.spec_tag(),
    {
        match self {
            PackageVersion::Unset => None,
            PackageVersion::V18 => Some(18),
        }
    }
}

impl Default for PackageVersion {
    fn default() -> (v: PackageVersion)
        ensures
            v == PackageVersion::Unset,
    {
        PackageVersion::Unset
    }
}

impl TryFrom<i32> for PackageVersion {
    type Error = Error;

    fn try_from(value: i32) -> (r: Result<PackageVersion, Error>) {
        if value == 18 {
            Ok(PackageVersion::V18)
        } else {
            Err(Error::UnsupportedPackageVersion)
        }
    }
}

impl TryFromSpecImpl<i32> for PackageVersion {
    open spec fn obeys_try_from_spec() -> bool {
        true
    }

    open spec fn try_from_spec(value: i32) -> Result<PackageVersion, Error> {
        if value == 18 {
            Ok(PackageVersion::V18)
        } else {
            Err(Error::UnsupportedPackageVersion)
        }
    }
}

} // verus!
