use composefs_run::number::{parse_i32, parse_u16, parse_u32, write_decimal, write_signed_decimal};
use composefs_run::path::{join_path, path_components, path_is_absolute, paths_equal};
use composefs_run::text::{
    first_bytes, lines_of, rsplit_text_once, split_text, split_text_once, splitn_text, trim_text,
    uppercase,
};

#[test]
fn text_is_split_as_often_as_asked() {
    assert_eq!(splitn_text("a:b:c:d", 3, ':'), vec!["a", "b", "c:d"]);
    assert_eq!(splitn_text("a", 3, ':'), vec!["a"]);
    assert_eq!(split_text("a:b:", ':'), vec!["a", "b", ""]);
    assert_eq!(split_text("", ':'), vec![""]);
    assert_eq!(split_text_once("k=v=w", '='), Some(("k", "v=w")));
    assert_eq!(rsplit_text_once("h:::1", ':'), Some(("h::", "1")));
    assert_eq!(split_text_once("k", '='), None);
    for s in ["=", "a=", "=b", "a=b=c"] {
        let (a, b) = split_text_once(s, '=').unwrap();
        assert_eq!(format!("{a}={b}"), s);
        let (a, b) = rsplit_text_once(s, '=').unwrap();
        assert_eq!(format!("{a}={b}"), s);
    }
}

#[test]
fn lines_are_those_of_the_standard_library() {
    for s in ["", "a", "a\n", "a\nb", "a\r\nb\r\n", "\n", "a\n\nb", "a\r", "\r\n"] {
        let expected: Vec<&str> = s.lines().collect();
        assert_eq!(lines_of(s), expected, "lines of {:?}", s);
    }
}

#[test]
fn trimming_is_that_of_the_standard_library() {
    for s in ["", " ", " a ", "\t\na b\r\n", "\u{a0}x\u{3000}", "\u{200b}x", "x\u{85}"] {
        assert_eq!(trim_text(s), s.trim());
    }
    for n in 0..0x3100u32 {
        if let Some(c) = char::from_u32(n) {
            let s = c.to_string();
            assert_eq!(trim_text(&s), s.trim());
        }
    }
}

#[test]
fn upper_case_is_ascii_only() {
    assert_eq!(uppercase("cap_net_räw1"), "cap_net_räw1".to_ascii_uppercase());
}

#[test]
fn bytes_are_counted_in_utf8() {
    assert_eq!(first_bytes("composefs-12345", 12), "composefs-12");
    assert_eq!(first_bytes("short", 12), "short");
    assert_eq!(first_bytes("äöü", 4), "äö");
}

#[test]
fn numbers_are_read_as_the_standard_library_reads_them() {
    for s in [
        "", "+", "-", "0", "+7", "-7", "007", "65535", "65536", "4294967295", "4294967296",
        "2147483647", "2147483648", "-2147483648", "-2147483649", "12a", " 1", "1 ", "--1", "+-1",
        "99999999999999999999",
    ] {
        assert_eq!(parse_u16(s), s.parse::<u16>().ok(), "{:?} as u16", s);
        assert_eq!(parse_u32(s), s.parse::<u32>().ok(), "{:?} as u32", s);
        assert_eq!(parse_i32(s), s.parse::<i32>().ok(), "{:?} as i32", s);
    }
}

#[test]
fn numbers_read_back() {
    for n in [0u64, 9, 10, 4294967295, u64::MAX] {
        assert_eq!(write_decimal(n), n.to_string());
    }
    for n in [0i32, -1, i32::MAX, i32::MIN] {
        assert_eq!(write_signed_decimal(n), n.to_string());
        assert_eq!(parse_i32(&write_signed_decimal(n)), Some(n));
    }
}

#[test]
fn paths_are_those_of_the_standard_library() {
    let paths = [
        "", "/", ".", "./a", "a/./b", "a//b", "/a/b/", "/a/b", "/a/../b", "..", "/./a", "a/.", "//a",
    ];
    for a in paths {
        assert_eq!(path_is_absolute(a), std::path::Path::new(a).is_absolute());
        for b in paths {
            assert_eq!(
                paths_equal(a, b),
                std::path::Path::new(a) == std::path::Path::new(b),
                "{:?} and {:?}",
                a,
                b
            );
            assert_eq!(
                join_path(a, b),
                std::path::Path::new(a).join(b).display().to_string(),
                "{:?} below {:?}",
                b,
                a
            );
        }
    }
}

#[test]
fn a_name_below_a_path_is_one_more_component() {
    assert_eq!(path_components(&join_path("/var/tmp/x/", "bundle")), vec!["var", "tmp", "x", "bundle"]);
    assert_eq!(path_components("/var//tmp/./x/"), vec!["var", "tmp", "x"]);
}
