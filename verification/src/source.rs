//! Image sources, and the polling of one source as a sequence of requests
//! to the outside world and decisions on what came back.
use crate::digest::sha256_hex;
use crate::error::Error;
use crate::iso_file::IsoFile;
use crate::manifest::{first_error, last_entry, lines_of, parse_sha256sum_file, Edition};
use crate::mirror::{
    get_latest_version, gpg_url, hash_url, iso_url, latest_release, release_files, texts, URL,
};
use crate::text::opt_text;
use crate::version::{parse_spec, Version};
use vstd::prelude::*;
use vstd::string::StringExecFns;

verus! {

/// The key server that holds the mirror's signing key.
pub const KEY_SERVER: &'static str = "hkp://keys.openpgp.org:80";

/// The fingerprint of the key that signs the mirror's manifests.
pub const SIGNING_KEY: &'static str = "27DEB15644C6B3CF3BD7D291300F846BA25BAE09";

/// Scratch file names.
pub const IMAGE_FILE: &'static str = "linuxmint.iso";

pub const MANIFEST_FILE: &'static str = "sha256sum.txt";

pub const SIGNATURE_FILE: &'static str = "sha256sum.txt.gpg";

pub const DIRECT_FILE: &'static str = "download.iso";

/// An image at a fixed URL. It is fetched once and never found updated.
#[derive(Debug, Clone)]
pub struct ConstantUrl {
    pub name: String,
    pub url: String,
    pub version: Option<String>,
}

/// The newest release of one edition on the mirror.
#[derive(Debug, Clone)]
pub struct LinuxMint {
    pub edition: Edition,
}

/// A configured source.
#[derive(Debug, Clone)]
pub enum IsoSourceEnum {
    ConstantUrl(ConstantUrl),
    LinuxMint(LinuxMint),
}

/// The steps between learning the release and reading its manifest.
#[derive(Debug, Clone, Copy, PartialEq, Eq, Structural)]
pub enum Step {
    /// The signing key is being received.
    Key,
    /// The manifest is being downloaded.
    Manifest,
    /// The manifest's signature is being downloaded.
    Signature,
    /// The signature is being checked.
    Verify,
    /// The manifest is being read back.
    Read,
}

/// What a release must be newer than to count as an update.
#[derive(Debug, Clone, Copy, PartialEq, Eq, Structural)]
pub enum Baseline {
    /// Any release will do.
    Nothing,
    /// The installed record's version.
    Installed(Version),
    /// The installed record's version cannot be told.
    Unknown(Error),
}

/// Where the polling of one source stands: what has been asked of the
/// outside world and not yet answered.
#[derive(Debug)]
pub enum Poll {
    /// The mirror is being crawled.
    Crawl { edition: Edition, baseline: Baseline },
    /// The manifest of `version` is being obtained and checked.
    Signed { step: Step, edition: Edition, version: Version },
    /// The image is being downloaded (`read` false) or read back (`read`
    /// true); its digest must be `expected`.
    Image { read: bool, edition: Edition, version: Version, expected: String },
    /// The image of a fixed URL is being downloaded or read back.
    Direct { read: bool, url: String, tag: Option<String> },
}

/// What the outside world is asked to do.
#[derive(Debug)]
pub enum Request {
    /// List every URL below `root`.
    Crawl { root: String },
    /// Obtain the key `key` from `server`.
    ReceiveKey { server: String, key: String },
    /// Fetch `url` into the scratch file `file`.
    Download { url: String, file: String },
    /// Check the detached signature in `signature` over `data`, both scratch files.
    VerifySignature { signature: String, data: String },
    /// Hand back the text of the scratch file `file`.
    ReadText { file: String },
    /// Hand back the bytes of the scratch file `file`.
    ReadBytes { file: String },
}

/// What the outside world answers.
#[derive(Debug)]
pub enum Reply {
    /// The request was carried out.
    Done,
    /// The request failed.
    Failed,
    /// The URLs that a crawl found.
    Urls(Vec<String>),
    /// The text of a file.
    Text(String),
    /// The bytes of a file.
    Bytes(Vec<u8>),
}

/// How a poll goes on after a reply.
#[derive(Debug)]
pub enum Outcome {
    /// There is more to ask.
    Continue(Poll),
    /// The poll is over: a verified new image, or nothing newer.
    Finished(Option<IsoFile>),
    /// The poll is over and the source could not be served.
    Failed(Error),
}

impl Step {
    /// The step after this one; `Read` is the last.
    pub open spec fn next_spec(self) -> Step {
        match self {
            Step::Key => Step::Manifest,
            Step::Manifest => Step::Signature,
            Step::Signature => Step::Verify,
            Step::Verify => Step::Read,
            Step::Read => Step::Read,
        }
    }

    /// The error that a failure of this step is.
    pub open spec fn failure_spec(self) -> Error {
        match self {
            Step::Key => Error::KeyUnavailable,
            Step::Manifest => Error::Fetch,
            Step::Signature => Error::Fetch,
            Step::Verify => Error::BadSignature,
            Step::Read => Error::Scratch,
        }
    }

    pub fn next(self) -> (r: Step)
        ensures
            r == self.next_spec(),
    {
        match self {
            Step::Key => Step::Manifest,
            Step::Manifest => Step::Signature,
            Step::Signature => Step::Verify,
            Step::Verify => Step::Read,
            Step::Read => Step::Read,
        }
    }

    pub fn failure(self) -> (r: Error)
        ensures
            r == self.failure_spec(),
    {
        match self {
            Step::Key => Error::KeyUnavailable,
            Step::Manifest => Error::Fetch,
            Step::Signature => Error::Fetch,
            Step::Verify => Error::BadSignature,
            Step::Read => Error::Scratch,
        }
    }
}

/// The baseline that an installed record's version tag gives.
pub open spec fn baseline_of(tag: Option<Seq<char>>) -> Baseline {
    match tag {
        None => Baseline::Unknown(Error::MissingVersion),
        Some(t) => match parse_spec(t) {
            None => Baseline::Unknown(Error::InvalidVersion),
            Some(v) => Baseline::Installed(v),
        },
    }
}

/// What follows a crawl whose newest release is `latest`: the manifest of
/// that release is obtained if it is strictly newer than the baseline; an
/// equal or older one ends the poll with nothing; a baseline that cannot be
/// told is an error.
pub open spec fn crawl_outcome(
    edition: Edition,
    baseline: Baseline,
    latest: Result<Version, Error>,
) -> Outcome {
    match latest {
        Err(e) => Outcome::Failed(e),
        Ok(v) => match baseline {
            Baseline::Nothing => Outcome::Continue(
                Poll::Signed { step: Step::Key, edition, version: v },
            ),
            Baseline::Unknown(e) => Outcome::Failed(e),
            Baseline::Installed(have) => if have.is_before(v) {
                Outcome::Continue(Poll::Signed { step: Step::Key, edition, version: v })
            } else {
                Outcome::Finished(None)
            },
        },
    }
}

/// Decides what follows a crawl.
pub fn after_crawl(edition: Edition, baseline: Baseline, latest: Result<Version, Error>) -> (r:
    Outcome)
    ensures
        r == crawl_outcome(edition, baseline, latest),
{
    match latest {
        Err(e) => Outcome::Failed(e),
        Ok(v) => match baseline {
            Baseline::Nothing => Outcome::Continue(
                Poll::Signed { step: Step::Key, edition, version: v },
            ),
            Baseline::Unknown(e) => Outcome::Failed(e),
            Baseline::Installed(have) => if v.is_newer_than(&have) {
                Outcome::Continue(Poll::Signed { step: Step::Key, edition, version: v })
            } else {
                Outcome::Finished(None)
            },
        },
    }
}

impl Baseline {
    /// The baseline that the installed record `existing` gives.
    pub fn of(existing: &IsoFile) -> (r: Baseline)
        ensures
            r == baseline_of(existing.version_text()),
    {
        match &existing.version {
            None => Baseline::Unknown(Error::MissingVersion),
            Some(tag) => match Version::parse(tag.as_str()) {
                Err(_) => Baseline::Unknown(Error::InvalidVersion),
                Ok(v) => Baseline::Installed(v),
            },
        }
    }
}

/// What every kind of source can be asked.
pub trait IsoSource {
    /// Begins fetching the source's newest image.
    fn latest(&self) -> (r: Outcome)
        ensures
            r is Continue,
    ;

    /// Begins looking for an image that is newer than `existing`.
    fn updated(&self, existing: &IsoFile) -> (r: Outcome)
        ensures
            !(r is Failed),
    ;
}

impl IsoSource for ConstantUrl {
    /// Begins fetching the image: it is downloaded whatever is installed.
    fn latest(&self) -> (r: Outcome)
        ensures
            r matches Outcome::Continue(Poll::Direct { read, url, tag }) && !read && url@
                == self.url@ && opt_text(tag) == opt_text(self.version),
    {
        let tag = match &self.version {
            Some(t) => Some(t.clone()),
            None => None,
        };
        Outcome::Continue(Poll::Direct { read: false, url: self.url.clone(), tag })
    }

    /// A fixed URL is never found updated.
    fn updated(&self, existing: &IsoFile) -> (r: Outcome)
        ensures
            r == Outcome::Finished(None),
    {
        Outcome::Finished(None)
    }
}

impl IsoSource for LinuxMint {
    /// Begins fetching the newest release.
    fn latest(&self) -> (r: Outcome)
        ensures
            r == Outcome::Continue(
                Poll::Crawl { edition: self.edition, baseline: Baseline::Nothing },
            ),
    {
        Outcome::Continue(Poll::Crawl { edition: self.edition, baseline: Baseline::Nothing })
    }

    /// Begins looking for a release that is newer than `existing`.
    fn updated(&self, existing: &IsoFile) -> (r: Outcome)
        ensures
            r == Outcome::Continue(
                Poll::Crawl {
                    edition: self.edition,
                    baseline: baseline_of(existing.version_text()),
                },
            ),
    {
        Outcome::Continue(Poll::Crawl { edition: self.edition, baseline: Baseline::of(existing) })
    }
}

impl IsoSourceEnum {
    /// What `latest` begins with, for each kind of source.
    pub open spec fn latest_spec(self, r: Outcome) -> bool {
        match self {
            IsoSourceEnum::ConstantUrl(c) => r matches Outcome::Continue(
                Poll::Direct { read, url, tag },
            ) && !read && url@ == c.url@ && opt_text(tag) == opt_text(c.version),
            IsoSourceEnum::LinuxMint(m) => r == Outcome::Continue(
                Poll::Crawl { edition: m.edition, baseline: Baseline::Nothing },
            ),
        }
    }

    /// What `updated` begins with, for each kind of source.
    pub open spec fn updated_spec(self, existing: IsoFile) -> Outcome {
        match self {
            IsoSourceEnum::ConstantUrl(c) => Outcome::Finished(None),
            IsoSourceEnum::LinuxMint(m) => Outcome::Continue(
                Poll::Crawl { edition: m.edition, baseline: baseline_of(existing.version_text()) },
            ),
        }
    }

    /// Begins fetching the source's newest image. Every kind of source asks
    /// for something: none is done at once.
    pub fn latest(&self) -> (r: Outcome)
        ensures
            self.latest_spec(r),
            r is Continue,
    {
        match self {
            IsoSourceEnum::ConstantUrl(constant_url) => constant_url.latest(),
            IsoSourceEnum::LinuxMint(linux_mint) => linux_mint.latest(),
        }
    }

    /// Begins looking for an image that is newer than `existing`.
    pub fn updated(&self, existing: &IsoFile) -> (r: Outcome)
        ensures
            r == self.updated_spec(*existing),
            !(r is Failed),
    {
        match self {
            IsoSourceEnum::ConstantUrl(constant_url) => constant_url.updated(existing),
            IsoSourceEnum::LinuxMint(linux_mint) => linux_mint.updated(existing),
        }
    }
}

impl Poll {
    /// Whether `request` is what this state waits for.
    pub open spec fn asks(self, request: Request) -> bool {
        match self {
            Poll::Crawl { edition, baseline } => request matches Request::Crawl { root } && root@
                == URL@,
            Poll::Signed { step, edition, version } => match step {
                Step::Key => request matches Request::ReceiveKey { server, key } && server@
                    == KEY_SERVER@ && key@ == SIGNING_KEY@,
                Step::Manifest => request matches Request::Download { url, file } && url@
                    == hash_url(version) && file@ == MANIFEST_FILE@,
                Step::Signature => request matches Request::Download { url, file } && url@
                    == gpg_url(version) && file@ == SIGNATURE_FILE@,
                Step::Verify => request matches Request::VerifySignature { signature, data }
                    && signature@ == SIGNATURE_FILE@ && data@ == MANIFEST_FILE@,
                Step::Read => request matches Request::ReadText { file } && file@
                    == MANIFEST_FILE@,
            },
            Poll::Image { read, edition, version, expected } => if read {
                request matches Request::ReadBytes { file } && file@ == IMAGE_FILE@
            } else {
                request matches Request::Download { url, file } && url@ == iso_url(
                    version,
                    edition,
                ) && file@ == IMAGE_FILE@
            },
            Poll::Direct { read, url, tag } => if read {
                request matches Request::ReadBytes { file } && file@ == DIRECT_FILE@
            } else {
                request matches Request::Download { url: from, file } && from@ == url@ && file@
                    == DIRECT_FILE@
            },
        }
    }

    /// What follows `reply` in this state.
    pub open spec fn follows(self, reply: Reply, r: Outcome) -> bool {
        match self {
            Poll::Crawl { edition, baseline } => match reply {
                Reply::Urls(files) => r == crawl_outcome(
                    edition,
                    baseline,
                    latest_release(texts(files@)),
                ),
                _ => r == Outcome::Failed(Error::Transport),
            },
            Poll::Signed { step, edition, version } => match (step, reply) {
                (Step::Read, Reply::Text(text)) => match first_error(lines_of(text@)) {
                    Some(e) => r == Outcome::Failed(e),
                    None => match last_entry(lines_of(text@), edition) {
                        None => r == Outcome::Failed(Error::MissingEdition),
                        Some(digest) => r matches Outcome::Continue(
                            Poll::Image { read, edition: e, version: v, expected },
                        ) && !read && e == edition && v == version && expected@ == digest,
                    },
                },
                (Step::Read, _) => r == Outcome::Failed(Error::Scratch),
                (_, Reply::Done) => r == Outcome::Continue(
                    Poll::Signed { step: step.next_spec(), edition, version },
                ),
                (_, _) => r == Outcome::Failed(step.failure_spec()),
            },
            Poll::Image { read, edition, version, expected } => if read {
                match reply {
                    Reply::Bytes(content) => if sha256_hex(content@) == expected@ {
                        r matches Outcome::Finished(Some(iso)) && iso.hash@ == sha256_hex(content@)
                            && iso.version_text() == Some(version.text())
                    } else {
                        r == Outcome::Failed(Error::HashMismatch)
                    },
                    _ => r == Outcome::Failed(Error::Scratch),
                }
            } else {
                match reply {
                    Reply::Done => r matches Outcome::Continue(
                        Poll::Image { read: again, edition: e, version: v, expected: x },
                    ) && again && e == edition && v == version && x@ == expected@,
                    _ => r == Outcome::Failed(Error::Fetch),
                }
            },
            Poll::Direct { read, url, tag } => if read {
                match reply {
                    Reply::Bytes(content) => r matches Outcome::Finished(Some(iso)) && iso.hash@
                        == sha256_hex(content@) && iso.version_text() == opt_text(tag),
                    _ => r == Outcome::Failed(Error::Scratch),
                }
            } else {
                match reply {
                    Reply::Done => r matches Outcome::Continue(
                        Poll::Direct { read: again, url: u, tag: t },
                    ) && again && u@ == url@ && opt_text(t) == opt_text(tag),
                    _ => r == Outcome::Failed(Error::Fetch),
                }
            },
        }
    }

    /// What this state asks of the outside world.
    pub fn request(&self) -> (r: Request)
        ensures
            self.asks(r),
    {
        match self {
            Poll::Crawl { edition, baseline } => Request::Crawl { root: String::from_str(URL) },
            Poll::Signed { step, edition, version } => {
                let files = release_files(version, *edition);
                match step {
                    Step::Key => Request::ReceiveKey {
                        server: String::from_str(KEY_SERVER),
                        key: String::from_str(SIGNING_KEY),
                    },
                    Step::Manifest => Request::Download {
                        url: files.hash_url,
                        file: String::from_str(MANIFEST_FILE),
                    },
                    Step::Signature => Request::Download {
                        url: files.gpg_url,
                        file: String::from_str(SIGNATURE_FILE),
                    },
                    Step::Verify => Request::VerifySignature {
                        signature: String::from_str(SIGNATURE_FILE),
                        data: String::from_str(MANIFEST_FILE),
                    },
                    Step::Read => Request::ReadText { file: String::from_str(MANIFEST_FILE) },
                }
            },
            Poll::Image { read, edition, version, expected } => {
                if *read {
                    Request::ReadBytes { file: String::from_str(IMAGE_FILE) }
                } else {
                    let files = release_files(version, *edition);
                    Request::Download { url: files.iso_url, file: String::from_str(IMAGE_FILE) }
                }
            },
            Poll::Direct { read, url, tag } => {
                if *read {
                    Request::ReadBytes { file: String::from_str(DIRECT_FILE) }
                } else {
                    Request::Download { url: url.clone(), file: String::from_str(DIRECT_FILE) }
                }
            },
        }
    }

    /// Takes the reply to this state's request and decides how the poll goes
    /// on. A record is handed out only for an image whose digest is the one
    /// that the signed manifest gives.
    pub fn step(self, reply: Reply) -> (r: Outcome)
        ensures
            self.follows(reply, r),
            self matches Poll::Image { expected, .. } ==> (r matches Outcome::Finished(Some(iso))
                ==> iso.hash@ == expected@),
    {
        match self {
            Poll::Crawl { edition, baseline } => match reply {
                Reply::Urls(files) => after_crawl(edition, baseline, get_latest_version(&files)),
                _ => Outcome::Failed(Error::Transport),
            },
            Poll::Signed { step, edition, version } => match step {
                Step::Read => match reply {
                    Reply::Text(text) => match parse_sha256sum_file(text.as_str()) {
                        Err(e) => Outcome::Failed(e),
                        Ok(manifest) => match manifest.expected(edition) {
                            Err(e) => Outcome::Failed(e),
                            Ok(expected) => Outcome::Continue(
                                Poll::Image { read: false, edition, version, expected },
                            ),
                        },
                    },
                    _ => Outcome::Failed(Error::Scratch),
                },
                _ => match reply {
                    Reply::Done => Outcome::Continue(
                        Poll::Signed { step: step.next(), edition, version },
                    ),
                    _ => Outcome::Failed(step.failure()),
                },
            },
            Poll::Image { read, edition, version, expected } => {
                if read {
                    match reply {
                        Reply::Bytes(content) => {
                            let iso = IsoFile::new(content.as_slice(), Some(version.to_string()));
                            match iso.verified(expected.as_str()) {
                                Ok(iso) => Outcome::Finished(Some(iso)),
                                Err(e) => Outcome::Failed(e),
                            }
                        },
                        _ => Outcome::Failed(Error::Scratch),
                    }
                } else {
                    match reply {
                        Reply::Done => Outcome::Continue(
                            Poll::Image { read: true, edition, version, expected },
                        ),
                        _ => Outcome::Failed(Error::Fetch),
                    }
                }
            },
            Poll::Direct { read, url, tag } => {
                if read {
                    match reply {
                        Reply::Bytes(content) => Outcome::Finished(
                            Some(IsoFile::new(content.as_slice(), tag)),
                        ),
                        _ => Outcome::Failed(Error::Scratch),
                    }
                } else {
                    match reply {
                        Reply::Done => Outcome::Continue(Poll::Direct { read: true, url, tag }),
                        _ => Outcome::Failed(Error::Fetch),
                    }
                }
            },
        }
    }
}

/// A record is handed out only in answer to an image's bytes, and for an
/// image of the mirror only where the digest of those bytes is the one that
/// the manifest gave: an image with another digest ends the poll with
/// `HashMismatch`.
pub proof fn lemma_only_verified_images(state: Poll, reply: Reply, r: Outcome)
    requires
        state.follows(reply, r),
    ensures
        r matches Outcome::Finished(Some(iso)) ==> {
            &&& reply matches Reply::Bytes(content) && iso.hash@ == sha256_hex(content@)
            &&& state matches Poll::Image { expected, .. } ==> iso.hash@ == expected@
            &&& state is Image || state is Direct
        },
        state matches Poll::Image { read, expected, .. } ==> (reply matches Reply::Bytes(content)
            ==> (read && sha256_hex(content@) != expected@ ==> r == Outcome::Failed(
            Error::HashMismatch,
        ))),
{
}

/// A manifest is read only after its signature was checked and accepted,
/// and an image is asked for only on the word of a manifest that was read:
/// a rejected signature ends the poll with `BadSignature`.
pub proof fn lemma_manifest_is_signed(state: Poll, reply: Reply, r: Outcome)
    requires
        state.follows(reply, r),
    ensures
        r matches Outcome::Continue(Poll::Signed { step, .. }) ==> (step == Step::Read ==> (
        state matches Poll::Signed { step: before, .. } ==> before == Step::Verify && reply
            is Done)),
        r matches Outcome::Continue(Poll::Signed { step, .. }) ==> (step == Step::Read
            ==> state is Signed),
        r matches Outcome::Continue(Poll::Image { read, .. }) ==> (!read ==> (
        state matches Poll::Signed { step, .. } && step == Step::Read)),
        state matches Poll::Signed { step, .. } ==> (step == Step::Verify && !(reply is Done) ==> r
            == Outcome::Failed(Error::BadSignature)),
{
}

/// A poll that looks for an update hands out a record only where the
/// mirror's newest release is strictly newer than the installed one, and
/// ends with nothing where it is equal or older.
pub proof fn lemma_update_only_if_newer(edition: Edition, have: Version, latest: Version)
    ensures
        crawl_outcome(edition, Baseline::Installed(have), Ok(latest)) is Continue <==> have.is_before(
            latest,
        ),
        !have.is_before(latest) ==> crawl_outcome(edition, Baseline::Installed(have), Ok(latest))
            == Outcome::Finished(None),
{
}

} // verus!
