use iso_updater::error::Error;
use iso_updater::mirror::{get_latest_version, get_versions, release_files, release_from_segments};
use iso_updater::manifest::Edition;
use iso_updater::version::{digit, digit_to_char, parse_number, push_decimal, Version};

#[test]
fn test_version_ordering() {
    assert!(
        Version {
            major: 20,
            minor: 1
        } < Version {
            major: 21,
            minor: 0
        }
    );
    assert!(
        Version {
            major: 20,
            minor: 1
        } < Version {
            major: 20,
            minor: 2
        }
    );
    assert_eq!(
        Version {
            major: 20,
            minor: 1
        },
        Version {
            major: 20,
            minor: 1
        }
    );
}

#[test]
fn test_version_parse() {
    assert_eq!(
        "20.1".parse::<Version>().unwrap(),
        Version {
            major: 20,
            minor: 1
        }
    );
    assert_eq!(
        "20".parse::<Version>().unwrap(),
        Version {
            major: 20,
            minor: 0
        }
    );
}

#[test]
fn test_version_parse_error() {
    assert!("invalid".parse::<Version>().is_err());
    assert!("20.invalid".parse::<Version>().is_err());
    assert!("invalid.1".parse::<Version>().is_err());
}

fn mirror_urls() -> Vec<String> {
    let releases = [
        "22.1", "19.3", "20.0", "20.1", "20.2", "20.3", "21.0", "21.1", "21.2", "21.3", "22.0",
    ];
    let mut urls = Vec::new();
    for release in releases {
        let base = format!("https://mirrors.edge.kernel.org/linuxmint/stable/{release}");
        urls.push(format!("{base}/linuxmint-{release}-cinnamon-64bit.iso"));
        urls.push(format!("{base}/sha256sum.txt"));
        urls.push(format!("{base}/sha256sum.txt.gpg"));
    }
    urls
}

#[test]
fn test_get_versions() {
    let files = mirror_urls();
    let versions = get_versions(&files).unwrap();
    assert_eq!(
        versions[0..11],
        [
            "19.3", "20.0", "20.1", "20.2", "20.3", "21.0", "21.1", "21.2", "21.3", "22.0",
            "22.1"
        ]
        .into_iter()
        .map(|x| x.parse().unwrap())
        .collect::<Vec<Version>>()
    );
    assert_eq!(versions.len(), 11);
}

#[test]
fn latest_version_is_the_maximum() {
    let files = mirror_urls();
    assert_eq!(get_latest_version(&files), Ok(Version { major: 22, minor: 1 }));
}

#[test]
fn latest_version_compares_numerically() {
    let files = vec![
        "https://example.org/a/b/9.0/x".to_string(),
        "https://example.org/a/b/10.0/x".to_string(),
        "https://example.org/a/b/9.12/x".to_string(),
    ];
    assert_eq!(get_latest_version(&files), Ok(Version { major: 10, minor: 0 }));
    assert_eq!(
        get_versions(&files),
        Ok(vec![
            Version { major: 9, minor: 0 },
            Version { major: 9, minor: 12 },
            Version { major: 10, minor: 0 },
        ])
    );
}

#[test]
fn no_urls_is_no_versions() {
    let files: Vec<String> = Vec::new();
    assert_eq!(get_versions(&files), Ok(Vec::new()));
    assert_eq!(get_latest_version(&files), Err(Error::NoVersions));
}

#[test]
fn shallow_url_fails_the_list() {
    let files = vec![
        "https://example.org/a/b/20.1/x".to_string(),
        "https://example.org/a/b".to_string(),
    ];
    assert_eq!(get_versions(&files), Err(Error::ShallowPath));
    assert_eq!(get_latest_version(&files), Err(Error::ShallowPath));
}

#[test]
fn url_without_segments_fails_the_list() {
    let files = vec!["data:text/plain,Hello".to_string()];
    assert_eq!(get_versions(&files), Err(Error::ShallowPath));
    let files = vec!["not a url".to_string()];
    assert_eq!(get_versions(&files), Err(Error::ShallowPath));
}

#[test]
fn first_bad_url_decides_the_error() {
    let files = vec![
        "https://example.org/a/b/nope/x".to_string(),
        "https://example.org/a".to_string(),
    ];
    assert_eq!(get_versions(&files), Err(Error::BadRelease));
    let files = vec![
        "https://example.org/a".to_string(),
        "https://example.org/a/b/nope/x".to_string(),
    ];
    assert_eq!(get_versions(&files), Err(Error::ShallowPath));
}

#[test]
fn release_from_segments_reads_the_third() {
    let parts = Some(vec!["linuxmint".to_string(), "stable".to_string(), "21.3".to_string()]);
    assert_eq!(release_from_segments(&parts), Ok(Version { major: 21, minor: 3 }));
    let parts = Some(vec!["linuxmint".to_string(), "stable".to_string()]);
    assert_eq!(release_from_segments(&parts), Err(Error::ShallowPath));
    let parts = Some(vec!["a".to_string(), "b".to_string(), "".to_string()]);
    assert_eq!(release_from_segments(&parts), Err(Error::BadRelease));
    assert_eq!(release_from_segments(&None), Err(Error::ShallowPath));
}

#[test]
fn version_renders_as_major_dot_minor() {
    assert_eq!(Version { major: 20, minor: 1 }.to_string(), "20.1");
    assert_eq!(Version { major: 0, minor: 0 }.to_string(), "0.0");
    assert_eq!(
        Version { major: 4294967295, minor: 1000 }.to_string(),
        "4294967295.1000"
    );
}

#[test]
fn parse_then_render_round_trips() {
    for text in ["20.1", "0.0", "19.3", "4294967295.4294967295", "7.10"] {
        assert_eq!(Version::parse(text).unwrap().to_string(), text);
    }
}

#[test]
fn render_then_parse_round_trips() {
    for v in [
        Version { major: 0, minor: 0 },
        Version { major: 22, minor: 1 },
        Version { major: 4294967295, minor: 9 },
    ] {
        assert_eq!(Version::parse(&v.to_string()), Ok(v));
    }
}

#[test]
fn single_component_round_trips_by_value() {
    let v = Version::parse("20").unwrap();
    assert_eq!(v.to_string(), "20.0");
    assert_eq!(Version::parse(&v.to_string()), Ok(v));
}

#[test]
fn parse_edge_cases() {
    assert_eq!(Version::parse(""), Err(Error::InvalidVersion));
    assert_eq!(Version::parse("."), Err(Error::InvalidVersion));
    assert_eq!(Version::parse("20."), Err(Error::InvalidVersion));
    assert_eq!(Version::parse(".1"), Err(Error::InvalidVersion));
    assert_eq!(Version::parse("1.2.3"), Err(Error::InvalidVersion));
    assert_eq!(Version::parse("-1"), Err(Error::InvalidVersion));
    assert_eq!(Version::parse("+"), Err(Error::InvalidVersion));
    assert_eq!(Version::parse(" 1"), Err(Error::InvalidVersion));
    assert_eq!(Version::parse("4294967296"), Err(Error::InvalidVersion));
    assert_eq!(Version::parse("1.4294967296"), Err(Error::InvalidVersion));
    assert_eq!(Version::parse("99999999999999999999999"), Err(Error::InvalidVersion));
    assert_eq!(
        Version::parse("4294967295"),
        Ok(Version { major: 4294967295, minor: 0 })
    );
    assert_eq!(Version::parse("+20.+1"), Ok(Version { major: 20, minor: 1 }));
    assert_eq!(Version::parse("020.01"), Ok(Version { major: 20, minor: 1 }));
}

#[test]
fn parse_agrees_with_std_on_numbers() {
    for text in ["0", "+7", "007", "12a", "", "+", "-0", "4294967295", "4294967296", "１"] {
        let chars: Vec<char> = text.chars().collect();
        assert_eq!(parse_number(&chars, 0, chars.len()), text.parse::<u32>().ok());
    }
}

#[test]
fn parse_chars_reads_what_parse_reads() {
    let chars: Vec<char> = "21.3".chars().collect();
    assert_eq!(Version::parse_chars(&chars), Ok(Version { major: 21, minor: 3 }));
}

#[test]
fn versions_compare_numerically() {
    let nine = Version::parse("9").unwrap();
    let ten = Version::parse("10").unwrap();
    assert!(nine < ten);
    assert!(ten.is_newer_than(&nine));
    assert!(!nine.is_newer_than(&ten));
    assert!(!nine.is_newer_than(&nine));
    assert!(Version { major: 1, minor: 9 } < Version { major: 1, minor: 10 });
    assert!(Version { major: 2, minor: 0 } > Version { major: 1, minor: 10 });
    assert!(Version { major: 2, minor: 0 } >= Version { major: 2, minor: 0 });
}

#[test]
fn order_matches_tuples() {
    let values = [0u32, 1, 9, 10, 4294967295];
    for a in values {
        for b in values {
            for c in values {
                for d in values {
                    let x = Version { major: a, minor: b };
                    let y = Version { major: c, minor: d };
                    assert_eq!(x < y, (a, b) < (c, d));
                    assert_eq!(x == y, (a, b) == (c, d));
                    assert_eq!(y.is_newer_than(&x), (a, b) < (c, d));
                }
            }
        }
    }
}

#[test]
fn digits() {
    assert_eq!(digit('0'), Some(0));
    assert_eq!(digit('9'), Some(9));
    assert_eq!(digit('a'), None);
    assert_eq!(digit('+'), None);
    assert_eq!(digit_to_char(0), '0');
    assert_eq!(digit_to_char(7), '7');
    let mut out = String::from("v");
    push_decimal(&mut out, 1203);
    assert_eq!(out, "v1203");
}

#[test]
fn release_files_are_below_the_release() {
    let files = release_files(&Version { major: 22, minor: 1 }, Edition::Xfce);
    assert_eq!(
        files.iso_url,
        "https://mirrors.edge.kernel.org/linuxmint/stable/22.1/linuxmint-22.1-xfce-64bit.iso"
    );
    assert_eq!(
        files.hash_url,
        "https://mirrors.edge.kernel.org/linuxmint/stable/22.1/sha256sum.txt"
    );
    assert_eq!(
        files.gpg_url,
        "https://mirrors.edge.kernel.org/linuxmint/stable/22.1/sha256sum.txt.gpg"
    );
}

#[test]
fn sorting_agrees_with_the_version_list() {
    let mut versions: Vec<Version> = ["22.1", "9.3", "20", "10.0", "9.12", "20.0"]
        .into_iter()
        .map(|x| x.parse().unwrap())
        .collect();
    versions.sort();
    versions.dedup();
    let urls: Vec<String> = ["22.1", "9.3", "20", "10.0", "9.12", "20.0"]
        .into_iter()
        .map(|x| format!("https://example.org/a/b/{x}/file"))
        .collect();
    assert_eq!(get_versions(&urls), Ok(versions.clone()));
    assert_eq!(versions.iter().max(), Some(&Version { major: 22, minor: 1 }));
    assert_eq!(versions.len(), 5);
}
