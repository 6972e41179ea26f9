use vstd::prelude::*;
use vstd::std_specs::cmp::PartialEqSpecImpl;
use crate::abstract_file_info::PackagedFileInfo;
use crate::bin_utils::eq_ignore_case;
use crate::bin_utils::spec_eq_ignore_case;

verus! {

/// The kind of content of an entry, as the extension of its name tells it.
#[derive(Debug, Clone, Copy, PartialEq, Eq, Structural)]
pub enum FileType {
    Unknown,
    Lsf,
    Bin,
    Json,
    WebP,
}

impl Default for FileType {
    fn default() -> (t: FileType)
        ensures
            t == FileType::Unknown,
    {
        FileType::Unknown
    }
}

/// The extension of a path as `std::path::Path::extension` gives it: what follows the
/// last dot of the file name, where the file name has one that is not its first
/// character.
pub uninterp spec fn path_extension(path: Seq<char>) -> Option<Seq<char>>;

/// Calls `std::path::Path::extension`. Trusted: the result is a function of the path
/// alone, named by `path_extension`. An extension that is no valid Unicode cannot come
/// from a path that is a string.
#[verifier::external_body]
fn extension(path: &str) -> (ext: Option<String>)
    ensures
        match ext {
            Some(e) => path_extension(path@) == Some(e@),
            None => path_extension(path@) is None,
        },
{
    match std::path::Path::new(path).extension() {
        Some(e) => Some(e.to_string_lossy().into_owned()),
        None => None,
    }
}

impl FileType {
    /// The kind that an extension stands for, letter case aside.
    pub open spec fn spec_of_extension(ext: Option<Seq<char>>) -> FileType {
        match ext {
            None => FileType::Unknown,
            Some(e) => if spec_eq_ignore_case(e, "lsf"@) {
                FileType::Lsf
            } else if spec_eq_ignore_case(e, "bin"@) {
                FileType::Bin
            } else if spec_eq_ignore_case(e, "json"@) {
                FileType::Json
            } else if spec_eq_ignore_case(e, "webp"@) {
                FileType::WebP
            } else {
                FileType::Unknown
            },
        }
    }

    /// The kind that an extension stands for, letter case aside.
    pub fn of_extension(ext: Option<&str>) -> (t: FileType)
        ensures
            t == Self::spec_of_extension(
                match ext {
                    Some(e) => Some(e@),
                    None => None,
                },
            ),
    {
        match ext {
            None => FileType::Unknown,
            Some(e) => {
                if eq_ignore_case(e, "lsf") {
                    FileType::Lsf
                } else if eq_ignore_case(e, "bin") {
                    FileType::Bin
                } else if eq_ignore_case(e, "json") {
                    FileType::Json
                } else if eq_ignore_case(e, "webp") {
                    FileType::WebP
                } else {
                    FileType::Unknown
                }
            },
        }
    }

    /// The kind of content of the entry named `name`.
    pub fn of_name(name: &str) -> (t: FileType)
        ensures
            t == Self::spec_of_extension(path_extension(name@)),
    {
        match extension(name) {
            Some(e) => Self::of_extension(Some(e.as_str())),
            None => Self::of_extension(None),
        }
    }
}

/// An entry with the kind of its content.
#[derive(Debug, Clone)]
pub struct PackageFile {
    pub file_type: FileType,
    pub pfi: PackagedFileInfo,
}

impl PackageFile {
    /// The entry `pfi` with the kind `file_type`.
    pub fn new(file_type: FileType, pfi: PackagedFileInfo) -> (f: Self)
        ensures
            f.file_type == file_type,
            f.pfi == pfi,
    {
        PackageFile { file_type, pfi }
    }

    /// The entry with the kind that its name tells.
    pub fn classify(pfi: PackagedFileInfo) -> (f: Self)
        ensures
            f.pfi == pfi,
            f.file_type == FileType::spec_of_extension(path_extension(pfi.name@)),
    {
        let file_type = FileType::of_name(pfi.name.as_str());
        PackageFile { file_type, pfi }
    }
}

impl PartialEq for PackageFile {
    /// Two entries are the same where their names are.
    fn eq(&self, other: &Self) -> (same: bool) {
        self.pfi.name == other.pfi.name
    }
}

impl PartialEqSpecImpl for PackageFile {
    open spec fn obeys_eq_spec() -> bool {
        true
    }

    open spec fn eq_spec(&self, other: &Self) -> bool {
        self.pfi.name@ == other.pfi.name@
    }
}

} // verus!
