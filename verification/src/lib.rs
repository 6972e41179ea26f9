//! Reader for LSPK packages and the LSF resources they carry.
//!
//! Every decoder in this crate is a function of the bytes it is given, and its
//! contract names the value it returns by a specification function over those bytes.

pub mod abstract_file_info;
pub mod bin_utils;
pub mod error;
pub mod file_entry;
pub mod lsf_reader;
pub mod lspk_header;
pub mod name_map;
pub mod package;
pub mod package_file;
pub mod package_metadata;
pub mod package_reader;
pub mod package_version;

use vstd::prelude::*;

verus! {

/// The four bytes `LSPK` that open a package.
pub const LSPK_SIGNATURE: [u8; 4] = [0x4C, 0x53, 0x50, 0x4B];

} // verus!
