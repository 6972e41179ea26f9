use vstd::prelude::*;
use crate::abstract_file_info::PackagedFileInfo;
use crate::abstract_file_info::PackagedFileInfoView;
use crate::bin_utils::eq_ignore_case;
use crate::bin_utils::spec_eq_ignore_case;
use crate::package_metadata::PackageMetadata;
use crate::package_version::PackageVersion;

verus! {

/// What a package says of itself, and its files in the order of the file list.
#[derive(Debug)]
pub struct Package {
    pub metadata: PackageMetadata,
    pub files: Vec<PackagedFileInfo>,
    pub version: PackageVersion,
}

/// What a `Package` holds, its files by their views.
pub struct PackageView {
    pub metadata: PackageMetadata,
    pub files: Seq<PackagedFileInfoView>,
    pub version: PackageVersion,
}

/// The files of a list, each by its view.
pub open spec fn files_view(files: Seq<PackagedFileInfo>) -> Seq<PackagedFileInfoView> {
    Seq::new(files.len(), |i: int| files[i]@)
}

impl View for Package {
    type V = PackageView;

    open spec fn view(&self) -> PackageView {
        PackageView {
            metadata: self.metadata,
            files: files_view(self.files@),
            version: self.version,
        }
    }
}

/// The place of the first file from `from` on whose name is `path`, letter case of
/// ASCII letters aside.
pub open spec fn spec_find(files: Seq<PackagedFileInfoView>, path: Seq<char>, from: int) -> Option<
    int,
>
    decreases files.len() - from,
{
    if from < 0 || from >= files.len() {
        None
    } else if spec_eq_ignore_case(files[from].name, path) {
        Some(from)
    } else {
        spec_find(files, path, from + 1)
    }
}

impl Package {
    /// The version of the format that this library reads.
    pub const CURRENT_VERSION: PackageVersion = PackageVersion::V18;

    /// A package of version 18 without files.
    pub fn new() -> (p: Package)
        ensures
            p@ == (PackageView {
                metadata: PackageMetadata { flags: 0, priority: 0 },
                files: Seq::empty(),
                version: PackageVersion::V18,
            }),
    {
        let p = Package {
            metadata: PackageMetadata::new(),
            files: Vec::new(),
            version: PackageVersion::V18,
        };
        assert(p@.files =~= Seq::<PackagedFileInfoView>::empty());
        p
    }

    /// The files of the package, in the order of the file list.
    pub fn entries(&self) -> (files: &Vec<PackagedFileInfo>)
        ensures
            files == &self.files,
    {
        &self.files
    }

    /// The first file whose name is `path`, letter case of ASCII letters aside.
    pub fn find_entry(&self, path: &str) -> (r: Option<&PackagedFileInfo>)
        ensures
            match spec_find(self@.files, path@, 0) {
                Some(i) => r is Some && r->Some_0 == self.files@[i],
                None => r is None,
            },
    {
        let mut i: usize = 0;
        while i < self.files.len()
            invariant
                i <= self.files@.len(),
                spec_find(self@.files, path@, 0) == spec_find(self@.files, path@, i as int),
            decreases self.files@.len() - i,
        {
            if eq_ignore_case(self.files[i].name.as_str(), path) {
                return Some(&self.files[i]);
            }
            i += 1;
        }
        None
    }
}

impl Default for Package {
    fn default() -> (p: Package)
        ensures
            p@ == (PackageView {
                metadata: PackageMetadata { flags: 0, priority: 0 },
                files: Seq::empty(),
                version: PackageVersion::V18,
            }),
    {
        Package::new()
    }
}

} // verus!
