use wows_replays::version::Version;

fn assert_older_newer(older: Version, newer: Version) {
    assert!(newer.is_at_least(&older));
    assert!(newer.is_at_least(&newer));
    assert!(!older.is_at_least(&newer));
}

#[test]
fn different_patch() {
    let older = Version::from_client_exe("0,10,9,0");
    let newer = Version::from_client_exe("0,10,10,0");
    assert_older_newer(older, newer);
}

#[test]
fn different_minor() {
    let older = Version::from_client_exe("0,10,9,0");
    let newer = Version::from_client_exe("0,11,0,0");
    assert_older_newer(older, newer);
}

#[test]
fn different_major() {
    let older = Version::from_client_exe("0,11,5,0");
    let newer = Version::from_client_exe("1,0,0,0");
    assert_older_newer(older, newer);
}

use wows_replays::error::ErrorKind;
use wows_replays::version::{parse_u32, parse_usize, push_decimal, EmbeddedDataFiles};

#[test]
fn client_version_fields_are_read() {
    let v = Version::parse_client_version("0,10,9,1234").unwrap();
    assert_eq!((v.major, v.minor, v.patch, v.build), (0, 10, 9, 1234));
    assert_eq!(v.to_path(), "0.10.9");
}

#[test]
fn client_version_needs_four_numbers() {
    assert!(Version::parse_client_version("0,10,9").is_none());
    assert!(Version::parse_client_version("0,10,9,1,2").is_none());
    assert!(Version::parse_client_version("0,x,9,1").is_none());
    assert!(Version::parse_client_version("0,10,,1").is_none());
    assert!(Version::parse_client_version("0,10,4294967296,1").is_none());
}

#[test]
fn at_least_is_ordered_by_major_minor_patch() {
    let a = Version::from_client_exe("1,2,3,0");
    let b = Version::from_client_exe("1,2,3,99");
    assert!(a.is_at_least(&b) && b.is_at_least(&a));
    let c = Version::from_client_exe("1,3,0,0");
    assert!(c.is_at_least(&a));
    assert!(!a.is_at_least(&c));
}

#[test]
fn numbers_parse_like_str_parse() {
    assert_eq!(parse_u32("42"), Some(42));
    assert_eq!(parse_u32("+7"), Some(7));
    assert_eq!(parse_u32("4294967295"), Some(u32::MAX));
    assert_eq!(parse_u32("4294967296"), None);
    assert_eq!(parse_u32(""), None);
    assert_eq!(parse_u32("-1"), None);
    assert_eq!(parse_u32("1a"), None);
    assert_eq!(parse_usize("123"), Some(123));
    assert_eq!(parse_usize(" 1"), None);
}

#[test]
fn decimal_digits_are_appended() {
    let mut s = "v".to_string();
    push_decimal(&mut s, 0);
    push_decimal(&mut s, 907);
    assert_eq!(s, "v0907");
}

#[test]
fn data_file_paths_of_a_version() {
    let files = EmbeddedDataFiles::new("versions".to_string(), Version::from_client_exe("0,10,9,0")).unwrap();
    assert_eq!(files.file_path("scripts/entities.xml"), "versions/0.10.9/scripts/entities.xml");
    assert_eq!(files.embedded_name("scripts/entities.xml"), "0.10.9/scripts/entities.xml");
    match files.not_found("x.def") {
        ErrorKind::DatafileNotFound { version, path } => {
            assert_eq!(version.minor, 10);
            assert_eq!(path, "x.def");
        }
        other => panic!("{:?}", other),
    }
}
