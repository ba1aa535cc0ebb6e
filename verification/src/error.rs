use vstd::prelude::*;

verus! {

/// The broad class a failure belongs to.
#[derive(Debug, Clone, Copy, PartialEq, Eq, Structural)]
pub enum ErrorKind {
    InvalidVersion,
    Crawl,
    Fetch,
    Verification,
    Placement,
    Config,
}

/// Everything that can go wrong while polling, verifying or installing an image.
#[derive(Debug, Clone, Copy, PartialEq, Eq, Structural)]
pub enum Error {
    /// A release identifier is not `<number>` or `<number>.<number>`.
    InvalidVersion,
    /// The mirror could not be walked.
    Transport,
    /// A mirror URL has fewer than three path segments.
    ShallowPath,
    /// The third path segment of a mirror URL is no version.
    BadRelease,
    /// The mirror lists no release at all.
    NoVersions,
    /// A manifest file name has fewer than three hyphen-separated parts.
    ShortFilename,
    /// A manifest file name carries an unknown edition.
    InvalidEdition,
    /// The manifest has no line for the configured edition.
    MissingEdition,
    /// A download did not complete.
    Fetch,
    /// A downloaded file could not be read back from scratch space.
    Scratch,
    /// The signing key could not be obtained.
    KeyUnavailable,
    /// The manifest's detached signature was rejected.
    BadSignature,
    /// The image's digest differs from the one the manifest gives.
    HashMismatch,
    /// The image could not be moved into the managed directory.
    Placement,
    /// The installed record carries no version to compare against.
    MissingVersion,
}

impl Error {
    pub open spec fn kind_spec(self) -> ErrorKind {
        match self {
            Error::InvalidVersion => ErrorKind::InvalidVersion,
            Error::Transport | Error::ShallowPath | Error::BadRelease | Error::NoVersions
            | Error::ShortFilename | Error::InvalidEdition | Error::MissingEdition => ErrorKind::Crawl,
            Error::Fetch | Error::Scratch => ErrorKind::Fetch,
            Error::KeyUnavailable | Error::BadSignature | Error::HashMismatch => ErrorKind::Verification,
            Error::Placement => ErrorKind::Placement,
            Error::MissingVersion => ErrorKind::Config,
        }
    }

    /// The class of this error.
    pub fn kind(&self) -> (k: ErrorKind)
        ensures
            k == self.kind_spec(),
    {
        match self {
            Error::InvalidVersion => ErrorKind::InvalidVersion,
            Error::Transport => ErrorKind::Crawl,
            Error::ShallowPath => ErrorKind::Crawl,
            Error::BadRelease => ErrorKind::Crawl,
            Error::NoVersions => ErrorKind::Crawl,
            Error::ShortFilename => ErrorKind::Crawl,
            Error::InvalidEdition => ErrorKind::Crawl,
            Error::MissingEdition => ErrorKind::Crawl,
            Error::Fetch => ErrorKind::Fetch,
            Error::Scratch => ErrorKind::Fetch,
            Error::KeyUnavailable => ErrorKind::Verification,
            Error::BadSignature => ErrorKind::Verification,
            Error::HashMismatch => ErrorKind::Verification,
            Error::Placement => ErrorKind::Placement,
            Error::MissingVersion => ErrorKind::Config,
        }
    }
}

} // verus!
