//! Integrity records of downloaded images, and images put in place.
use crate::digest::{sha256, sha256_hex};
use crate::error::Error;
use crate::text::opt_text;
use vstd::prelude::*;

verus! {

/// The digest of one downloaded image, with the version it was published as.
#[derive(Debug, Clone)]
pub struct IsoFile {
    /// The SHA-256 digest of the file, in hexadecimal.
    pub hash: String,
    /// The version, if any. Several different files may carry the same one.
    pub version: Option<String>,
}

impl IsoFile {
    /// The version tag as text.
    pub open spec fn version_text(self) -> Option<Seq<char>> {
        opt_text(self.version)
    }

    /// The record of an image with the given content.
    pub fn new(content: &[u8], version: Option<String>) -> (r: IsoFile)
        ensures
            r.hash@ == sha256_hex(content@),
            r.version == version,
    {
        IsoFile { hash: sha256(content), version }
    }

    /// Checks the record against the digest that a manifest gives for it.
    pub fn verified(self, expected: &str) -> (r: Result<IsoFile, Error>)
        ensures
            r == if self.hash@ == expected@ {
                Ok::<IsoFile, Error>(self)
            } else {
                Err::<IsoFile, Error>(Error::HashMismatch)
            },
    {
        let want = expected.to_owned();
        if self.hash == want {
            Ok(self)
        } else {
            Err(Error::HashMismatch)
        }
    }
}

impl PartialEq for IsoFile {
    fn eq(&self, other: &IsoFile) -> (r: bool) {
        self.hash == other.hash
    }
}

impl Eq for IsoFile {

}

impl vstd::std_specs::cmp::PartialEqSpecImpl for IsoFile {
    open spec fn obeys_eq_spec() -> bool {
        true
    }

    open spec fn eq_spec(&self, other: &IsoFile) -> bool {
        self.hash@ == other.hash@
    }
}

/// An image in the managed directory.
#[derive(Debug, Clone)]
pub struct InPlaceIsoFile {
    pub iso_file: IsoFile,
    /// The file's name below the managed directory; it may name folders.
    pub filename: String,
}

impl InPlaceIsoFile {
    /// The record of `iso_file` once it has been moved to `target_filename`.
    pub fn put(iso_file: IsoFile, target_filename: String) -> (r: InPlaceIsoFile)
        ensures
            r.iso_file == iso_file,
            r.filename == target_filename,
    {
        InPlaceIsoFile { iso_file, filename: target_filename }
    }
}

} // verus!
