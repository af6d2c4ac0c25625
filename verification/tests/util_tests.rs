use balapatch::adb::{parse_package_paths, ConnectionMode};
use balapatch::apk_utils::{extension_of, ApkError, ApkUtils};
use balapatch::completer::FilePathCompleter;
use balapatch::either::{Either, EitherVariant};
use balapatch::grammar::GrammarPolice;
use balapatch::ipv4::{Ipv4ParseError, Ipv4Port};
use balapatch::lua::LVal;
use balapatch::string_buf::StringBuf;

#[test]
fn multi_file_patch() {}

#[test]
fn ipv4_port_parses_the_usual_shape() {
    let p = Ipv4Port::parse("127.0.0.1:42069").unwrap();
    assert_eq!(p.addr, [127, 0, 0, 1]);
    assert_eq!(p.port, 42069);

    let p = Ipv4Port::parse("255.255.255.255:65535").unwrap();
    assert_eq!(p.addr, [255, 255, 255, 255]);
    assert_eq!(p.port, 65535);
}

#[test]
fn ipv4_port_rejects_bad_addresses() {
    assert_eq!(Ipv4Port::parse("1.2.3:80").unwrap_err(), Ipv4ParseError::InvalidIp);
    assert_eq!(Ipv4Port::parse("1.2.3.4.5:80").unwrap_err(), Ipv4ParseError::InvalidIp);
    assert_eq!(Ipv4Port::parse("256.1.1.1:80").unwrap_err(), Ipv4ParseError::InvalidIp);
    assert_eq!(Ipv4Port::parse("1..2.3:80").unwrap_err(), Ipv4ParseError::InvalidIp);
    assert_eq!(Ipv4Port::parse("a.b.c.d:80").unwrap_err(), Ipv4ParseError::InvalidIp);
}

#[test]
fn ipv4_port_rejects_bad_ports() {
    assert_eq!(Ipv4Port::parse("1.2.3.4:0").unwrap_err(), Ipv4ParseError::InvalidPortNumber);
    assert_eq!(Ipv4Port::parse("1.2.3.4:x").unwrap_err(), Ipv4ParseError::InvalidPortFormat);
    assert_eq!(Ipv4Port::parse("1.2.3.4:65536").unwrap_err(), Ipv4ParseError::InvalidPortFormat);
    assert_eq!(Ipv4Port::parse("1.2.3.4:").unwrap_err(), Ipv4ParseError::InvalidPortFormat);
    assert_eq!(Ipv4Port::parse("1.2.3.4").unwrap_err(), Ipv4ParseError::MissingPort);
}

#[test]
fn package_listing_is_split_and_stripped() {
    let text = "package:/data/app/base.apk\npackage:/data/app/split.apk\n";
    let paths = parse_package_paths(text);
    assert_eq!(paths, vec!["/data/app/base.apk".to_string(), "/data/app/split.apk".to_string()]);
}

#[test]
fn package_listing_drops_empty_lines_and_keeps_bare_ones() {
    let text = "package:/a\r\n\r\n/plain\npackage:package:/twice";
    let paths = parse_package_paths(text);
    assert_eq!(paths, vec!["/a".to_string(), "/plain".to_string(), "/twice".to_string()]);
    assert!(parse_package_paths("").is_empty());
    assert!(parse_package_paths("\n\r\n\n").is_empty());
}

#[test]
fn extensions_are_read_from_the_last_component() {
    assert_eq!(extension_of("game.apk"), Some(b"apk".to_vec()));
    assert_eq!(extension_of("dir/archive.tar.gz"), Some(b"gz".to_vec()));
    assert_eq!(extension_of("dir.d/file"), None);
    assert_eq!(extension_of(".hidden"), None);
    assert_eq!(extension_of("trailing."), Some(Vec::new()));
}

#[test]
fn apk_paths_are_classified() {
    assert_eq!(
        ApkUtils::new("game.apk".to_string(), false, false, false).unwrap_err(),
        ApkError::NotFound
    );
    assert_eq!(
        ApkUtils::new("game.apk".to_string(), true, false, true).unwrap_err(),
        ApkError::IsDirectory
    );
    assert_eq!(
        ApkUtils::new("game.apk".to_string(), true, false, false).unwrap_err(),
        ApkError::IsSymlink
    );
    assert_eq!(
        ApkUtils::new("game.zip".to_string(), true, true, false).unwrap_err(),
        ApkError::WrongExtension(b"zip".to_vec())
    );
    let u = ApkUtils::new("game.apk".to_string(), true, true, false).unwrap();
    assert_eq!(u.apk_path, "game.apk");
    let u = ApkUtils::new_unchecked("whatever".to_string());
    assert_eq!(u.apk_path, "whatever");
}

#[test]
fn grammar_police_holds_text_unchanged() {
    let mut g = GrammarPolice::new("hello,world");
    g.ensure_space_after_punctuation();
    assert_eq!(g.into_inner(), "hello,world");
}

#[test]
fn whitespace_is_trimmed_and_collapsed() {
    let mut g = GrammarPolice::new("  a\t\tb  c\n");
    g.trim_whitespace();
    assert_eq!(g.into_inner(), "a b c");

    let mut nbsp = GrammarPolice::new("a\u{00A0}\u{2003}b");
    nbsp.trim_whitespace();
    assert_eq!(nbsp.into_inner(), "a b");

    let mut blank = GrammarPolice::new(" \t\r\n ");
    blank.trim_whitespace();
    assert_eq!(blank.into_inner(), "");

    let mut clean = GrammarPolice::new("already clean");
    clean.trim_whitespace();
    assert_eq!(clean.into_inner(), "already clean");
}

#[test]
fn lua_verdicts_map_to_the_reported_result() {
    let val = LVal::new("local x = 1 + 2".to_string());
    assert_eq!(val.src, "local x = 1 + 2");
    assert!(val.validate(true).is_ok());
    assert_eq!(val.validate(false).unwrap_err(), "Couldn't validate provided Lua code");
}

#[test]
fn either_holds_one_of_two_things() {
    let l: Either<i32, &str> = Either::new_left(5);
    assert!(l.is_left());
    assert!(!l.is_right());
    assert_eq!(l.clone().get_left(), Some(5));
    assert_eq!(l.clone().get_right(), None);
    assert_eq!(l.clone().into_left(), Some(5));
    assert_eq!(l.clone().into_right(), None);
    assert_eq!(l.clone().into_result(), Ok(5));
    assert_eq!(l.into_result_reverse(), Err(5));

    let r: Either<i32, &str> = Either::new_right("five");
    assert!(r.is_right());
    assert!(!r.is_left());
    assert_eq!(r.clone().get_left(), None);
    assert_eq!(r.clone().get_right(), Some("five"));
    assert_eq!(r.clone().into_result(), Err("five"));
    assert_eq!(r.into_result_reverse(), Ok("five"));
    match Either::<u8, u8>::new_left(1).val {
        EitherVariant::Left(v) => assert_eq!(v, 1),
        EitherVariant::Right(_) => panic!("wrong side"),
    }
}

#[test]
fn string_buf_collects_written_text() {
    let mut b = StringBuf::new();
    assert_eq!(b.write_bytes(b"hello "), 6);
    assert_eq!(b.write_bytes(b"world"), 5);
    assert_eq!(b.as_string(), Some("hello world"));
    assert_eq!(b.into_string(), Some("hello world".to_string()));

    let mut bad = StringBuf::new();
    bad.write_bytes(&[0xFF, 0xFE]);
    assert_eq!(bad.as_string(), None);
    assert_eq!(bad.into_string(), None);
}

#[test]
fn connection_modes_know_when_they_can_connect() {
    assert!(ConnectionMode::Wireless(([127, 0, 0, 1], 5555)).connectable());
    assert!(ConnectionMode::Wired((0x18D1, 0x4EE7)).connectable());
    assert!(!ConnectionMode::Wired((0, 0)).connectable());
}

#[test]
fn completer_refreshes_only_when_needed() {
    let mut c = FilePathCompleter::default();
    assert!(c.needs_refresh("src"));
    c.store_scan("src", vec!["src/main.rs".to_string()]);
    assert!(!c.needs_refresh("src"));
    assert!(c.needs_refresh("srcx"));
}

#[test]
fn completer_ranks_matching_paths_only() {
    let mut c = FilePathCompleter::default();
    c.store_scan(
        "a",
        vec!["abc".to_string(), "xyz".to_string(), "a".to_string(), "bca".to_string()],
    );
    let ranked = c.fuzzy_sort("a");
    let names: Vec<&str> = ranked.iter().map(|(p, _)| p.as_str()).collect();
    assert!(names.contains(&"abc"));
    assert!(names.contains(&"a"));
    assert!(names.contains(&"bca"));
    assert!(!names.contains(&"xyz"));
    for w in ranked.windows(2) {
        assert!(w[0].1 >= w[1].1);
    }
}
