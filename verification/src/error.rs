use vstd::prelude::*;
use vstd::string::StringExecFns;

verus! {

/// Why a package or a resource could not be decoded.
#[derive(Debug, Clone, Copy, PartialEq, Eq, Structural)]
pub enum Error {
    /// The archive does not start with the `LSPK` signature.
    NotLSPK,
    /// The resource does not start with the `LSOF` signature.
    NotLSF,
    /// The package version tag is not 18.
    UnsupportedPackageVersion,
    /// The resource version is outside 1..=7.
    UnsupportedLSFVersion,
    /// Fewer bytes were left than a read asked for.
    ShortRead,
    /// The compression method has no codec.
    UnsupportedCompression,
    /// The codec rejected the payload.
    DecompressFailed,
    /// The codec produced another length than the one declared.
    SizeMismatch,
    /// A file entry carries flags outside the accepted mask.
    UnsupportedEntryFlags,
    /// A file entry is larger on disk than 2 GiB - 1.
    EntryTooLarge,
    /// A name bucket or slot does not exist in the name pool.
    BadNameRef,
    /// An attribute index does not exist, or an attribute chain never ends.
    BadAttributeRef,
    /// A parent index does not name an earlier node.
    BadParentRef,
    /// A stored string does not end in a NUL byte, or a count is negative.
    MalformedString,
    /// The attribute type tag is not one of the known 34.
    UnknownType,
    /// No entry of the package bears the requested name.
    EntryNotFound,
}

impl Error {
    /// A one-line description of the error.
    pub fn message(&self) -> (text: String)
        ensures
            text@ == self.spec_message()@,
    {
        String::from_str(self.text())
    }

    /// The description that [`Error::message`] returns.
    pub open spec fn spec_message(&self) -> &'static str {
        match self {
            Error::NotLSPK => "not an LSPK package",
            Error::NotLSF => "not an LSF resource",
            Error::UnsupportedPackageVersion => "unsupported package version",
            Error::UnsupportedLSFVersion => "unsupported LSF version",
            Error::ShortRead => "fewer bytes than expected",
            Error::UnsupportedCompression => "unsupported compression method",
            Error::DecompressFailed => "corrupt compressed payload",
            Error::SizeMismatch => "decompressed size differs from the declared size",
            Error::UnsupportedEntryFlags => "file entry has unsupported flags",
            Error::EntryTooLarge => "file entry is over 2 GiB - 1 on disk",
            Error::BadNameRef => "name index out of range",
            Error::BadAttributeRef => "attribute index out of range",
            Error::BadParentRef => "parent index out of range",
            Error::MalformedString => "string is not NUL-terminated",
            Error::UnknownType => "unknown attribute type",
            Error::EntryNotFound => "no such entry in the package",
        }
    }

    fn text(&self) -> (text: &'static str)
        ensures
            text@ == self.spec_message()@,
    {
        match self {
            Error::NotLSPK => "not an LSPK package",
            Error::NotLSF => "not an LSF resource",
            Error::UnsupportedPackageVersion => "unsupported package version",
            Error::UnsupportedLSFVersion => "unsupported LSF version",
            Error::ShortRead => "fewer bytes than expected",
            Error::UnsupportedCompression => "unsupported compression method",
            Error::DecompressFailed => "corrupt compressed payload",
            Error::SizeMismatch => "decompressed size differs from the declared size",
            Error::UnsupportedEntryFlags => "file entry has unsupported flags",
            Error::EntryTooLarge => "file entry is over 2 GiB - 1 on disk",
            Error::BadNameRef => "name index out of range",
            Error::BadAttributeRef => "attribute index out of range",
            Error::BadParentRef => "parent index out of range",
            Error::MalformedString => "string is not NUL-terminated",
            Error::UnknownType => "unknown attribute type",
            Error::EntryNotFound => "no such entry in the package",
        }
    }
}

/// The part of an archive or of a resource in which a decoder failed.
#[derive(Debug, Clone, Copy, PartialEq, Eq, Structural)]
pub enum Section {
    /// The signature, the version tag and the header of an archive.
    Package,
    /// The file list of an archive.
    FileList,
    /// The payload of an entry of an archive.
    Entry,
    /// The header of a resource.
    Header,
    /// The strings section of a resource.
    Strings,
    /// The nodes section of a resource.
    Nodes,
    /// The attributes section of a resource.
    Attributes,
    /// The values section of a resource.
    Values,
    /// The tree that is made of the nodes of a resource.
    Tree,
}

/// An error and where it came up.
#[derive(Debug, Clone, Copy, PartialEq, Eq, Structural)]
pub struct Failure {
    pub kind: Error,
    pub section: Section,
    /// Where the section starts: a byte offset in the archive for the parts of an
    /// archive, a byte offset in the resource for the sections of a resource, and the
    /// place of the node for the tree.
    pub offset: u64,
}

/// The result with its error, if it is one, placed in `section` at `offset`.
pub open spec fn in_section<T>(r: Result<T, Error>, section: Section, offset: u64) -> Result<
    T,
    Failure,
> {
    match r {
        Ok(value) => Ok(value),
        Err(kind) => Err(Failure { kind, section, offset }),
    }
}

/// Places the error of a result, if it is one, in `section` at `offset`.
pub fn locate<T>(r: Result<T, Error>, section: Section, offset: u64) -> (located: Result<T, Failure>)
    ensures
        located == in_section(r, section, offset),
{
    match r {
        Ok(value) => Ok(value),
        Err(kind) => Err(Failure { kind, section, offset }),
    }
}

impl Section {
    /// The name of the section.
    pub open spec fn spec_name(&self) -> &'static str {
        match self {
            Section::Package => "package header",
            Section::FileList => "file list",
            Section::Entry => "entry",
            Section::Header => "resource header",
            Section::Strings => "strings section",
            Section::Nodes => "nodes section",
            Section::Attributes => "attributes section",
            Section::Values => "values section",
            Section::Tree => "node",
        }
    }

    /// The name of the section.
    pub fn name(&self) -> (text: &'static str)
        ensures
            text@ == self.spec_name()@,
    {
        match self {
            Section::Package => "package header",
            Section::FileList => "file list",
            Section::Entry => "entry",
            Section::Header => "resource header",
            Section::Strings => "strings section",
            Section::Nodes => "nodes section",
            Section::Attributes => "attributes section",
            Section::Values => "values section",
            Section::Tree => "node",
        }
    }
}

} // verus!
