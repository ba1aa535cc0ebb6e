use iso_updater::error::{Error, ErrorKind};
use iso_updater::iso_file::{InPlaceIsoFile, IsoFile};
use iso_updater::manifest::Edition;
use iso_updater::source::{
    after_crawl, Baseline, ConstantUrl, IsoSource, IsoSourceEnum, LinuxMint, Outcome, Poll, Reply,
    Request, Step,
};
use iso_updater::version::Version;

const ABC: &str = "ba7816bf8f01cfea414140de5dae2223b00361a396177a9cb410ff61f20015ad";
const EMPTY: &str = "e3b0c44298fc1c149afbf4c8996fb92427ae41e4649b934ca495991b7852b855";

fn record(hash: &str, version: Option<&str>) -> IsoFile {
    IsoFile { hash: hash.to_string(), version: version.map(|v| v.to_string()) }
}

fn mint() -> IsoSourceEnum {
    IsoSourceEnum::LinuxMint(LinuxMint { edition: Edition::Cinnamon })
}

fn crawl(releases: &[&str]) -> Reply {
    Reply::Urls(
        releases
            .iter()
            .map(|r| format!("https://mirrors.edge.kernel.org/linuxmint/stable/{r}/sha256sum.txt"))
            .collect(),
    )
}

fn proceed(outcome: Outcome) -> Poll {
    match outcome {
        Outcome::Continue(poll) => poll,
        other => panic!("the poll ended: {other:?}"),
    }
}

#[test]
fn digest_of_known_content() {
    assert_eq!(IsoFile::new(b"abc", None).hash, ABC);
    assert_eq!(IsoFile::new(b"", Some("1.0".to_string())).hash, EMPTY);
    assert_eq!(IsoFile::new(b"", Some("1.0".to_string())).version.as_deref(), Some("1.0"));
}

#[test]
fn records_are_equal_by_digest_alone() {
    assert_eq!(record("aa", Some("1.0")), record("aa", None));
    assert_ne!(record("aa", Some("1.0")), record("ab", Some("1.0")));
}

#[test]
fn verified_compares_with_the_expected_digest() {
    assert_eq!(IsoFile::new(b"abc", None).verified(ABC), Ok(record(ABC, None)));
    assert_eq!(IsoFile::new(b"abd", None).verified(ABC), Err(Error::HashMismatch));
    assert_eq!(record("AA", None).verified("aa"), Err(Error::HashMismatch));
}

#[test]
fn put_keeps_record_and_name() {
    let placed = InPlaceIsoFile::put(record("aa", Some("1.0")), "dir/mint.iso".to_string());
    assert_eq!(placed.iso_file.hash, "aa");
    assert_eq!(placed.iso_file.version.as_deref(), Some("1.0"));
    assert_eq!(placed.filename, "dir/mint.iso");
}

#[test]
fn constant_url_is_fetched_once() {
    let source = IsoSourceEnum::ConstantUrl(ConstantUrl {
        name: "tool".to_string(),
        url: "https://example.org/tool.iso".to_string(),
        version: Some("3".to_string()),
    });
    assert!(matches!(source.updated(&record("aa", None)), Outcome::Finished(None)));

    let poll = proceed(source.latest());
    match poll.request() {
        Request::Download { url, file } => {
            assert_eq!(url, "https://example.org/tool.iso");
            assert_eq!(file, "download.iso");
        }
        other => panic!("unexpected request {other:?}"),
    }
    let poll = proceed(poll.step(Reply::Done));
    match poll.request() {
        Request::ReadBytes { file } => assert_eq!(file, "download.iso"),
        other => panic!("unexpected request {other:?}"),
    }
    match poll.step(Reply::Bytes(b"abc".to_vec())) {
        Outcome::Finished(Some(iso)) => {
            assert_eq!(iso.hash, ABC);
            assert_eq!(iso.version.as_deref(), Some("3"));
        }
        other => panic!("unexpected outcome {other:?}"),
    }
}

#[test]
fn constant_url_download_failure() {
    let source = ConstantUrl { name: "t".to_string(), url: "u".to_string(), version: None };
    let poll = proceed(source.latest());
    assert!(matches!(poll.step(Reply::Failed), Outcome::Failed(Error::Fetch)));
    let poll = proceed(proceed(source.latest()).step(Reply::Done));
    assert!(matches!(poll.step(Reply::Failed), Outcome::Failed(Error::Scratch)));
    let poll = proceed(proceed(source.latest()).step(Reply::Done));
    match poll.step(Reply::Bytes(Vec::new())) {
        Outcome::Finished(Some(iso)) => {
            assert_eq!(iso.hash, EMPTY);
            assert_eq!(iso.version, None);
        }
        other => panic!("unexpected outcome {other:?}"),
    }
}

fn run_to_image(start: Outcome, releases: &[&str], manifest: &str) -> Outcome {
    let poll = proceed(start);
    match poll.request() {
        Request::Crawl { root } => {
            assert_eq!(root, "https://mirrors.edge.kernel.org/linuxmint/stable/")
        }
        other => panic!("unexpected request {other:?}"),
    }
    let poll = proceed(poll.step(crawl(releases)));
    match poll.request() {
        Request::ReceiveKey { server, key } => {
            assert_eq!(server, "hkp://keys.openpgp.org:80");
            assert_eq!(key, "27DEB15644C6B3CF3BD7D291300F846BA25BAE09");
        }
        other => panic!("unexpected request {other:?}"),
    }
    let poll = proceed(poll.step(Reply::Done));
    match poll.request() {
        Request::Download { url, file } => {
            assert_eq!(
                url,
                "https://mirrors.edge.kernel.org/linuxmint/stable/22.1/sha256sum.txt"
            );
            assert_eq!(file, "sha256sum.txt");
        }
        other => panic!("unexpected request {other:?}"),
    }
    let poll = proceed(poll.step(Reply::Done));
    match poll.request() {
        Request::Download { url, file } => {
            assert_eq!(
                url,
                "https://mirrors.edge.kernel.org/linuxmint/stable/22.1/sha256sum.txt.gpg"
            );
            assert_eq!(file, "sha256sum.txt.gpg");
        }
        other => panic!("unexpected request {other:?}"),
    }
    let poll = proceed(poll.step(Reply::Done));
    match poll.request() {
        Request::VerifySignature { signature, data } => {
            assert_eq!(signature, "sha256sum.txt.gpg");
            assert_eq!(data, "sha256sum.txt");
        }
        other => panic!("unexpected request {other:?}"),
    }
    let poll = proceed(poll.step(Reply::Done));
    match poll.request() {
        Request::ReadText { file } => assert_eq!(file, "sha256sum.txt"),
        other => panic!("unexpected request {other:?}"),
    }
    poll.step(Reply::Text(manifest.to_string()))
}

fn manifest_for(digest: &str) -> String {
    format!("{digest} *linuxmint-22.1-cinnamon-64bit.iso\n{EMPTY} *linuxmint-22.1-mate-64bit.iso\n")
}

#[test]
fn mirror_latest_installs_verified_image() {
    let outcome = run_to_image(mint().latest(), &["21.3", "22.1", "22.0"], &manifest_for(ABC));
    let poll = proceed(outcome);
    match poll.request() {
        Request::Download { url, file } => {
            assert_eq!(
                url,
                "https://mirrors.edge.kernel.org/linuxmint/stable/22.1/linuxmint-22.1-cinnamon-64bit.iso"
            );
            assert_eq!(file, "linuxmint.iso");
        }
        other => panic!("unexpected request {other:?}"),
    }
    let poll = proceed(poll.step(Reply::Done));
    match poll.request() {
        Request::ReadBytes { file } => assert_eq!(file, "linuxmint.iso"),
        other => panic!("unexpected request {other:?}"),
    }
    match poll.step(Reply::Bytes(b"abc".to_vec())) {
        Outcome::Finished(Some(iso)) => {
            assert_eq!(iso.hash, ABC);
            assert_eq!(iso.version.as_deref(), Some("22.1"));
        }
        other => panic!("unexpected outcome {other:?}"),
    }
}

#[test]
fn mismatched_image_is_never_handed_out() {
    let outcome = run_to_image(mint().latest(), &["22.1"], &manifest_for(ABC));
    let poll = proceed(proceed(outcome).step(Reply::Done));
    assert!(matches!(
        poll.step(Reply::Bytes(b"abd".to_vec())),
        Outcome::Failed(Error::HashMismatch)
    ));
    let outcome = run_to_image(mint().latest(), &["22.1"], &manifest_for(EMPTY));
    let poll = proceed(proceed(outcome).step(Reply::Done));
    assert!(matches!(
        poll.step(Reply::Bytes(b"abc".to_vec())),
        Outcome::Failed(Error::HashMismatch)
    ));
}

#[test]
fn manifest_without_the_edition_fails() {
    let manifest = format!("{ABC} *linuxmint-22.1-xfce-64bit.iso\n");
    let outcome = run_to_image(mint().latest(), &["22.1"], &manifest);
    assert!(matches!(outcome, Outcome::Failed(Error::MissingEdition)));
    let outcome = run_to_image(mint().latest(), &["22.1"], "abc short\n");
    assert!(matches!(outcome, Outcome::Failed(Error::ShortFilename)));
}

#[test]
fn updated_only_for_a_strictly_newer_release() {
    for (have, releases, newer) in [
        ("22.1", vec!["22.0", "22.1"], false),
        ("22.2", vec!["22.0", "22.1"], false),
        ("23", vec!["22.1"], false),
        ("22.0", vec!["22.0", "22.1"], true),
        ("9.9", vec!["22.1"], true),
        ("22", vec!["22.1"], true),
    ] {
        let start = mint().updated(&record("aa", Some(have)));
        let outcome = proceed(start).step(crawl(&releases));
        if newer {
            assert!(matches!(
                outcome,
                Outcome::Continue(Poll::Signed {
                    step: Step::Key,
                    edition: Edition::Cinnamon,
                    version: Version { major: 22, minor: 1 }
                })
            ));
        } else {
            assert!(matches!(outcome, Outcome::Finished(None)));
        }
    }
}

#[test]
fn updated_with_untold_installed_version_is_an_error() {
    let outcome = proceed(mint().updated(&record("aa", None))).step(crawl(&["22.1"]));
    assert!(matches!(outcome, Outcome::Failed(Error::MissingVersion)));
    let outcome = proceed(mint().updated(&record("aa", Some("new")))).step(crawl(&["22.1"]));
    assert!(matches!(outcome, Outcome::Failed(Error::InvalidVersion)));
    let outcome = proceed(mint().updated(&record("aa", None))).step(crawl(&[]));
    assert!(matches!(outcome, Outcome::Failed(Error::NoVersions)));
}

#[test]
fn crawl_failures() {
    assert!(matches!(
        proceed(mint().latest()).step(Reply::Failed),
        Outcome::Failed(Error::Transport)
    ));
    assert!(matches!(
        proceed(mint().latest()).step(crawl(&[])),
        Outcome::Failed(Error::NoVersions)
    ));
    assert!(matches!(
        proceed(mint().latest()).step(Reply::Urls(vec!["https://example.org/a".to_string()])),
        Outcome::Failed(Error::ShallowPath)
    ));
    assert!(matches!(
        proceed(mint().latest()).step(crawl(&["22.1", "latest"])),
        Outcome::Failed(Error::BadRelease)
    ));
}

#[test]
fn each_step_fails_with_its_own_error() {
    let expected = [
        Error::KeyUnavailable,
        Error::Fetch,
        Error::Fetch,
        Error::BadSignature,
        Error::Scratch,
    ];
    for (n, error) in expected.into_iter().enumerate() {
        let mut poll = proceed(proceed(mint().latest()).step(crawl(&["22.1"])));
        for _ in 0..n {
            poll = proceed(poll.step(Reply::Done));
        }
        match poll.step(Reply::Failed) {
            Outcome::Failed(e) => assert_eq!(e, error),
            other => panic!("unexpected outcome {other:?}"),
        }
    }
    let outcome = run_to_image(mint().latest(), &["22.1"], &manifest_for(ABC));
    assert!(matches!(proceed(outcome).step(Reply::Failed), Outcome::Failed(Error::Fetch)));
}

#[test]
fn after_crawl_cases() {
    let v = Version { major: 22, minor: 1 };
    assert!(matches!(
        after_crawl(Edition::Mate, Baseline::Nothing, Err(Error::NoVersions)),
        Outcome::Failed(Error::NoVersions)
    ));
    assert!(matches!(
        after_crawl(Edition::Mate, Baseline::Installed(v), Ok(v)),
        Outcome::Finished(None)
    ));
    assert!(matches!(
        after_crawl(Edition::Mate, Baseline::Unknown(Error::MissingVersion), Ok(v)),
        Outcome::Failed(Error::MissingVersion)
    ));
    assert!(matches!(
        after_crawl(Edition::Mate, Baseline::Nothing, Ok(v)),
        Outcome::Continue(Poll::Signed { step: Step::Key, edition: Edition::Mate, .. })
    ));
    assert_eq!(Baseline::of(&record("a", Some("22.1"))), Baseline::Installed(v));
    assert_eq!(Baseline::of(&record("a", None)), Baseline::Unknown(Error::MissingVersion));
    assert_eq!(Baseline::of(&record("a", Some("x"))), Baseline::Unknown(Error::InvalidVersion));
}

#[test]
fn every_kind_of_source_answers_both_questions() {
    let installed = record("aa", Some("21.0"));
    let direct = ConstantUrl { name: "t".to_string(), url: "u".to_string(), version: None };
    let mirror = LinuxMint { edition: Edition::Xfce };
    assert!(matches!(direct.latest(), Outcome::Continue(Poll::Direct { read: false, .. })));
    assert!(matches!(direct.updated(&installed), Outcome::Finished(None)));
    assert!(matches!(
        mirror.latest(),
        Outcome::Continue(Poll::Crawl { edition: Edition::Xfce, baseline: Baseline::Nothing })
    ));
    assert!(matches!(
        mirror.updated(&installed),
        Outcome::Continue(Poll::Crawl {
            edition: Edition::Xfce,
            baseline: Baseline::Installed(Version { major: 21, minor: 0 })
        })
    ));
}

#[test]
fn steps_follow_each_other() {
    assert_eq!(Step::Key.next(), Step::Manifest);
    assert_eq!(Step::Manifest.next(), Step::Signature);
    assert_eq!(Step::Signature.next(), Step::Verify);
    assert_eq!(Step::Verify.next(), Step::Read);
    assert_eq!(Step::Read.next(), Step::Read);
    assert_eq!(Step::Verify.failure(), Error::BadSignature);
}

#[test]
fn error_kinds() {
    assert_eq!(Error::InvalidVersion.kind(), ErrorKind::InvalidVersion);
    assert_eq!(Error::Transport.kind(), ErrorKind::Crawl);
    assert_eq!(Error::ShallowPath.kind(), ErrorKind::Crawl);
    assert_eq!(Error::BadRelease.kind(), ErrorKind::Crawl);
    assert_eq!(Error::NoVersions.kind(), ErrorKind::Crawl);
    assert_eq!(Error::ShortFilename.kind(), ErrorKind::Crawl);
    assert_eq!(Error::InvalidEdition.kind(), ErrorKind::Crawl);
    assert_eq!(Error::MissingEdition.kind(), ErrorKind::Crawl);
    assert_eq!(Error::Fetch.kind(), ErrorKind::Fetch);
    assert_eq!(Error::Scratch.kind(), ErrorKind::Fetch);
    assert_eq!(Error::KeyUnavailable.kind(), ErrorKind::Verification);
    assert_eq!(Error::BadSignature.kind(), ErrorKind::Verification);
    assert_eq!(Error::HashMismatch.kind(), ErrorKind::Verification);
    assert_eq!(Error::Placement.kind(), ErrorKind::Placement);
    assert_eq!(Error::MissingVersion.kind(), ErrorKind::Config);
}
