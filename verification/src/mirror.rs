//! The release mirror: which versions its directory listing shows, and where
//! the files of a release are.
use crate::error::Error;
use crate::manifest::Edition;
use crate::version::{parse_spec, Version};
use vstd::prelude::*;
use vstd::string::StringExecFns;

verus! {

/// The root of the mirror. Release directories are its children.
pub const URL: &'static str = "https://mirrors.edge.kernel.org/linuxmint/stable/";

/// The path segments of the URL that `url` spells, as the `url` crate gives
/// them; `None` where `url` is no URL or one that cannot be a base.
pub uninterp spec fn url_path_segments(url: Seq<char>) -> Option<Seq<Seq<char>>>;

/// The texts of a sequence of strings.
pub open spec fn texts(v: Seq<String>) -> Seq<Seq<char>> {
    Seq::new(v.len(), |i: int| v[i]@)
}

/// Calls `url::Url::parse` and then `Url::path_segments`. Trusted: the result
/// is the segments that the crate finds in this text, each copied into a
/// string; a text that does not parse gives `None`, as a URL without
/// segments does.
#[verifier::external_body]
pub(crate) fn path_segments(url: &str) -> (r: Option<Vec<String>>)
    ensures
        match r {
            Some(v) => url_path_segments(url@) == Some(texts(v@)),
            None => url_path_segments(url@) is None,
        },
{
    match url::Url::parse(url) {
        Ok(parsed) => parsed.path_segments().map(|parts| parts.map(|p| p.to_string()).collect()),
        Err(_) => None,
    }
}

/// The release that a URL with the given path segments belongs to: its third
/// segment, read as a version.
pub open spec fn release_in(parts: Option<Seq<Seq<char>>>) -> Result<Version, Error> {
    match parts {
        None => Err(Error::ShallowPath),
        Some(p) => if p.len() < 3 {
            Err(Error::ShallowPath)
        } else {
            match parse_spec(p[2]) {
                Some(v) => Ok(v),
                None => Err(Error::BadRelease),
            }
        },
    }
}

/// The release that the URL `url` belongs to.
pub open spec fn release_of(url: Seq<char>) -> Result<Version, Error> {
    release_in(url_path_segments(url))
}

/// The error of the first URL that belongs to no release, if there is one.
pub open spec fn first_failure(urls: Seq<Seq<char>>) -> Option<Error>
    decreases urls.len(),
{
    if urls.len() == 0 {
        None
    } else {
        match first_failure(urls.drop_last()) {
            Some(e) => Some(e),
            None => match release_of(urls.last()) {
                Err(e) => Some(e),
                Ok(_) => None,
            },
        }
    }
}

/// Whether some URL of `urls` belongs to release `v`.
pub open spec fn lists(urls: Seq<Seq<char>>, v: Version) -> bool {
    exists|i: int| 0 <= i < urls.len() && release_of(#[trigger] urls[i]) == Ok::<Version, Error>(v)
}

/// Ascending, with nothing twice.
pub open spec fn ascending(vs: Seq<Version>) -> bool {
    forall|i: int, j: int| 0 <= i < j < vs.len() ==> (#[trigger] vs[i]).is_before(#[trigger] vs[j])
}

/// Whether `vs` holds exactly the releases that `urls` show, in ascending order.
pub open spec fn is_version_list(vs: Seq<Version>, urls: Seq<Seq<char>>) -> bool {
    &&& ascending(vs)
    &&& forall|v: Version| vs.contains(v) <==> lists(urls, v)
}

/// The release named by the third of the given path segments.
pub fn release_from_segments(parts: &Option<Vec<String>>) -> (r: Result<Version, Error>)
    ensures
        r == release_in(
            match *parts {
                Some(p) => Some(texts(p@)),
                None => None,
            },
        ),
{
    match parts {
        None => Err(Error::ShallowPath),
        Some(p) => {
            if p.len() < 3 {
                Err(Error::ShallowPath)
            } else {
                match Version::parse(p[2].as_str()) {
                    Ok(v) => Ok(v),
                    Err(_) => Err(Error::BadRelease),
                }
            }
        },
    }
}

/// Puts `v` into the ascending list `vs`, unless it is there already.
pub fn insert_version(vs: &mut Vec<Version>, v: Version)
    requires
        ascending(old(vs)@),
    ensures
        ascending(final(vs)@),
        forall|x: Version| final(vs)@.contains(x) <==> (old(vs)@.contains(x) || x == v),
{
    let mut k: usize = 0;
    while k < vs.len() && v.is_newer_than(&vs[k])
        invariant
            k <= vs@.len(),
            vs@ == old(vs)@,
            forall|i: int| 0 <= i < k ==> (#[trigger] vs@[i]).is_before(v),
        decreases vs@.len() - k,
    {
        k += 1;
    }
    if k < vs.len() && vs[k].major == v.major && vs[k].minor == v.minor {
        assert(vs@[k as int] == v);
        return ;
    }
    let ghost before = vs@;
    vs.insert(k, v);
    proof {
        let after = vs@;
        assert(after.len() == before.len() + 1);
        assert(after[k as int] == v);
        assert forall|i: int| 0 <= i < k implies after[i] == before[i] by {}
        assert forall|i: int| k < i < after.len() implies after[i] == before[i - 1] by {}
        assert forall|i: int| k <= i < before.len() implies v.is_before(#[trigger] before[i]) by {
            if i > k {
                assert(before[k as int].is_before(before[i]));
            }
        }
        assert forall|i: int, j: int| 0 <= i < j < after.len() implies (#[trigger] after[i]).is_before(
            #[trigger] after[j],
        ) by {
            if j < k {
                assert(before[i].is_before(before[j]));
            } else if j == k {
                assert(before[i].is_before(v));
            } else if i < k {
                assert(before[i].is_before(before[j - 1]));
            } else if i == k {
                assert(v.is_before(before[j - 1]));
            } else {
                assert(before[i - 1].is_before(before[j - 1]));
            }
        }
        assert forall|x: Version| after.contains(x) <==> (before.contains(x) || x == v) by {
            if after.contains(x) {
                let i = choose|i: int| 0 <= i < after.len() && after[i] == x;
                if i < k {
                    assert(before[i] == x);
                } else if i > k {
                    assert(before[i - 1] == x);
                }
            }
            if before.contains(x) {
                let i = choose|i: int| 0 <= i < before.len() && before[i] == x;
                if i < k {
                    assert(after[i] == x);
                } else {
                    assert(after[i + 1] == x);
                }
            }
        }
    }
}

/// The releases that the mirror's URLs show, ascending and without
/// repetition. The first URL with fewer than three path segments
/// (`ShallowPath`), or whose third segment is no version (`BadRelease`),
/// fails the whole list.
pub fn get_versions(files: &Vec<String>) -> (r: Result<Vec<Version>, Error>)
    ensures
        match r {
            Ok(vs) => first_failure(texts(files@)) is None && is_version_list(vs@, texts(files@)),
            Err(e) => first_failure(texts(files@)) == Some(e),
        },
{
    let ghost urls = texts(files@);
    let mut vs: Vec<Version> = Vec::new();
    let mut i: usize = 0;
    proof {
        assert(urls.take(0) =~= Seq::<Seq<char>>::empty());
    }
    while i < files.len()
        invariant
            i <= files@.len(),
            urls == texts(files@),
            first_failure(urls.take(i as int)) is None,
            is_version_list(vs@, urls.take(i as int)),
        decreases files@.len() - i,
    {
        let parts = path_segments(files[i].as_str());
        let release = release_from_segments(&parts);
        let ghost seen = urls.take(i as int);
        let ghost next = urls.take(i + 1);
        proof {
            assert(next.drop_last() =~= seen);
            assert(next.last() == files@[i as int]@);
            assert(release == release_of(next.last()));
        }
        match release {
            Err(e) => {
                proof {
                    lemma_first_failure_more(next, urls.skip(i + 1));
                    assert(next + urls.skip(i + 1) =~= urls);
                }
                return Err(e);
            },
            Ok(v) => {
                let ghost before = vs@;
                insert_version(&mut vs, v);
                proof {
                    assert forall|x: Version| vs@.contains(x) <==> lists(next, x) by {
                        if lists(next, x) {
                            let j = choose|j: int|
                                0 <= j < next.len() && release_of(#[trigger] next[j]) == Ok::<
                                    Version,
                                    Error,
                                >(x);
                            if j < i {
                                assert(seen[j] == next[j]);
                                assert(lists(seen, x));
                            }
                        }
                        if before.contains(x) {
                            let j = choose|j: int|
                                0 <= j < seen.len() && release_of(#[trigger] seen[j]) == Ok::<
                                    Version,
                                    Error,
                                >(x);
                            assert(next[j] == seen[j]);
                        }
                        if x == v {
                            assert(release_of(next[i as int]) == Ok::<Version, Error>(x));
                        }
                    }
                }
            },
        }
        i += 1;
    }
    proof {
        assert(urls.take(i as int) =~= urls);
    }
    Ok(vs)
}

/// Whether every release of `known` is shown by `urls`, and every release
/// that `urls` show is one of `known` or newer than all of them.
pub open spec fn are_oldest(known: Seq<Version>, urls: Seq<Seq<char>>) -> bool {
    &&& ascending(known)
    &&& forall|j: int| 0 <= j < known.len() ==> lists(urls, #[trigger] known[j])
    &&& forall|v: Version|
        lists(urls, v) ==> known.contains(v) || (forall|j: int|
            0 <= j < known.len() ==> (#[trigger] known[j]).is_before(v))
}

/// Where the mirror shows the releases `known` and beside them only newer
/// ones, the version list has the `i`-th of `known` at place `i`.
pub proof fn lemma_known_release_at(
    vs: Seq<Version>,
    known: Seq<Version>,
    urls: Seq<Seq<char>>,
    i: int,
)
    requires
        is_version_list(vs, urls),
        are_oldest(known, urls),
        0 <= i < known.len(),
    ensures
        i < vs.len(),
        vs[i] == known[i],
    decreases i,
{
    assert forall|j: int| 0 <= j < i implies j < vs.len() && vs[j] == known[j] by {
        lemma_known_release_at(vs, known, urls, j);
    }
    assert(lists(urls, known[i]));
    assert(vs.contains(known[i]));
    let p = choose|p: int| 0 <= p < vs.len() && vs[p] == known[i];
    if p < i {
        assert(vs[p] == known[p]);
        assert(known[p].is_before(known[i]));
    }
    if p > i {
        assert(vs[i].is_before(vs[p]));
        assert(vs.contains(vs[i]));
        assert(lists(urls, vs[i]));
        if known.contains(vs[i]) {
            let q = choose|q: int| 0 <= q < known.len() && known[q] == vs[i];
            if q < i {
                assert(vs[q] == known[q]);
                assert(vs[q].is_before(vs[i]));
            } else if q > i {
                assert(known[i].is_before(known[q]));
            }
        } else {
            assert(known[i].is_before(vs[i]));
        }
    }
}

/// Where the mirror shows the releases `known` and beside them only newer
/// ones, the version list begins with `known`.
pub proof fn lemma_known_releases_come_first(
    vs: Seq<Version>,
    known: Seq<Version>,
    urls: Seq<Seq<char>>,
)
    requires
        is_version_list(vs, urls),
        are_oldest(known, urls),
    ensures
        known.len() <= vs.len(),
        vs.take(known.len() as int) == known,
{
    assert forall|i: int| 0 <= i < known.len() implies i < vs.len() && vs[i] == known[i] by {
        lemma_known_release_at(vs, known, urls, i);
    }
    if known.len() > 0 {
        lemma_known_release_at(vs, known, urls, known.len() - 1);
    }
    assert(vs.take(known.len() as int) =~= known);
}

/// A failure among the first URLs is the failure of the whole list.
pub proof fn lemma_first_failure_more(head: Seq<Seq<char>>, tail: Seq<Seq<char>>)
    requires
        first_failure(head) is Some,
    ensures
        first_failure(head + tail) == first_failure(head),
    decreases tail.len(),
{
    if tail.len() == 0 {
        assert(head + tail =~= head);
    } else {
        lemma_first_failure_more(head, tail.drop_last());
        assert((head + tail).drop_last() =~= head + tail.drop_last());
    }
}

/// Whether `v` is the newest release that `urls` show.
pub open spec fn is_latest(v: Version, urls: Seq<Seq<char>>) -> bool {
    &&& lists(urls, v)
    &&& forall|x: Version| lists(urls, x) ==> x == v || x.is_before(v)
}

/// The newest release that `urls` show: the failure of the first URL that
/// belongs to no release, else `NoVersions` where there is no URL at all.
pub open spec fn latest_release(urls: Seq<Seq<char>>) -> Result<Version, Error> {
    match first_failure(urls) {
        Some(e) => Err(e),
        None => if exists|v: Version| is_latest(v, urls) {
            Ok(choose|v: Version| is_latest(v, urls))
        } else {
            Err(Error::NoVersions)
        },
    }
}

/// At most one release is the newest.
pub proof fn lemma_latest_unique(a: Version, b: Version, urls: Seq<Seq<char>>)
    requires
        is_latest(a, urls),
        is_latest(b, urls),
    ensures
        a == b,
{
}

/// The newest release that the mirror's URLs show; `NoVersions` where they
/// show none.
pub fn get_latest_version(files: &Vec<String>) -> (r: Result<Version, Error>)
    ensures
        r == latest_release(texts(files@)),
        r matches Ok(v) ==> is_latest(v, texts(files@)),
{
    match get_versions(files) {
        Err(e) => Err(e),
        Ok(vs) => {
            if vs.len() == 0 {
                proof {
                    assert forall|x: Version| !lists(texts(files@), x) by {
                        assert(!vs@.contains(x));
                    }
                }
                assert(!exists|v: Version| is_latest(v, texts(files@)));
                Err(Error::NoVersions)
            } else {
                let v = vs[vs.len() - 1];
                proof {
                    let urls = texts(files@);
                    assert(vs@.contains(v));
                    assert forall|x: Version| lists(urls, x) implies x == v || x.is_before(v) by {
                        assert(vs@.contains(x));
                        let j = choose|j: int| 0 <= j < vs@.len() && vs@[j] == x;
                        if j < vs@.len() - 1 {
                            assert(vs@[j].is_before(vs@[vs@.len() - 1]));
                        }
                    }
                    assert(is_latest(v, urls));
                    lemma_latest_unique(v, choose|x: Version| is_latest(x, urls), urls);
                }
                Ok(v)
            }
        },
    }
}

/// Where the files of one release's image are.
#[derive(Debug, Clone)]
pub struct ReleaseFiles {
    /// The image itself.
    pub iso_url: String,
    /// The checksum manifest of the release.
    pub hash_url: String,
    /// The detached signature of the manifest.
    pub gpg_url: String,
}

/// The directory of a release on the mirror.
pub open spec fn base_url(version: Version) -> Seq<char> {
    URL@ + version.text()
}

pub open spec fn iso_url(version: Version, edition: Edition) -> Seq<char> {
    base_url(version) + "/linuxmint-"@ + version.text() + "-"@ + edition.name() + "-64bit.iso"@
}

pub open spec fn hash_url(version: Version) -> Seq<char> {
    base_url(version) + "/sha256sum.txt"@
}

pub open spec fn gpg_url(version: Version) -> Seq<char> {
    hash_url(version) + ".gpg"@
}

/// The URLs of the image of `edition` in release `version`, of the release's
/// manifest and of the manifest's signature.
pub fn release_files(version: &Version, edition: Edition) -> (r: ReleaseFiles)
    ensures
        r.iso_url@ == iso_url(*version, edition),
        r.hash_url@ == hash_url(*version),
        r.gpg_url@ == gpg_url(*version),
{
    let text = version.to_string();
    let base = String::from_str(URL).concat(text.as_str());
    let iso = base.clone().concat("/linuxmint-").concat(text.as_str()).concat("-").concat(
        edition.as_str(),
    ).concat("-64bit.iso");
    let hash = base.concat("/sha256sum.txt");
    let gpg = hash.clone().concat(".gpg");
    ReleaseFiles { iso_url: iso, hash_url: hash, gpg_url: gpg }
}

} // verus!
