use pia_wireguard::text::{
    is_white_space, nth_piece, parse_bool, parse_u32, parse_u64, same_text, split, split_once, trim,
    trim_end, trim_start, write_bool, write_decimal, write_decimal_nat,
};

#[test]
fn white_space_is_that_of_unicode() {
    for n in 0..=0x10ffff_u32 {
        if let Some(c) = char::from_u32(n) {
            assert_eq!(is_white_space(c), c.is_whitespace(), "{n:x}");
        }
    }
}

#[test]
fn trimming_is_that_of_std() {
    for s in [
        "",
        " ",
        "1.2.3.4\n",
        "\t 1.2.3.4 \r\n",
        "a b",
        "\u{3000}\u{e9}\u{a0}x\u{85}",
        " \u{200b} ",
    ] {
        assert_eq!(trim(s), s.trim());
        assert_eq!(trim_end(s), s.trim_end());
        assert_eq!(trim_start(s), s.trim_start());
    }
    assert_eq!(trim_end("10.0.0.1\n"), "10.0.0.1");
}

#[test]
fn splitting_is_that_of_std() {
    for s in ["", ",", "a", "a,b", ",a,,b,", "\u{e9},\u{1f600},x", "8080/tcp,8080/udp"] {
        let expected: Vec<String> = s.split(',').map(|p| p.to_string()).collect();
        assert_eq!(split(s, ','), expected);
        assert_eq!(expected.join(","), s);
        for n in 0..6 {
            assert_eq!(nth_piece(s, ',', n), s.split(',').nth(n).map(|p| p.to_string()));
        }
    }
}

#[test]
fn splitting_once_cuts_at_the_first_separator() {
    for s in ["", "/", "8080/tcp", "a/b/c", "abc", "\u{e9}/\u{e8}"] {
        let expected = s.split_once('/').map(|(a, b)| (a.to_string(), b.to_string()));
        assert_eq!(split_once(s, '/'), expected);
    }
    assert_eq!(
        split_once("8080/tcp/x", '/'),
        Some(("8080".to_string(), "tcp/x".to_string()))
    );
}

#[test]
fn decimals_are_those_of_std() {
    for n in [0, 7, 10, 99, 100, 1337, 65535, -1, -10, i32::MAX, i32::MIN] {
        assert_eq!(write_decimal(n), n.to_string());
    }
    assert_eq!(write_decimal(-42), "-42");
}

#[test]
fn numbers_are_read_as_std_reads_them() {
    for s in [
        "",
        "+",
        "-",
        "0",
        "00",
        "60",
        "+5",
        "++5",
        "-5",
        " 5",
        "5 ",
        "5s",
        "\u{665}",
        "4294967295",
        "4294967296",
        "18446744073709551615",
        "18446744073709551616",
        "99999999999999999999999",
        "000000000000000000000000000007",
    ] {
        assert_eq!(parse_u64(s), s.parse::<u64>().ok(), "{s}");
        assert_eq!(parse_u32(s), s.parse::<u32>().ok(), "{s}");
    }
    assert_eq!(parse_u64("+300"), Some(300));
}

#[test]
fn what_is_written_reads_back() {
    for n in [0, 1, 9, 10, 51820, i32::MAX] {
        assert_eq!(parse_u64(&write_decimal(n)), Some(n as u64));
    }
}

#[test]
fn truth_values_are_read_letter_for_letter() {
    for s in ["true", "false", "True", "1", "", " true", "yes"] {
        assert_eq!(parse_bool(s), s.parse::<bool>().ok());
    }
    for b in [true, false] {
        assert_eq!(write_bool(b), b.to_string());
        assert_eq!(parse_bool(write_bool(b)), Some(b));
    }
}

#[test]
fn natural_decimals_are_those_of_std() {
    for n in [0, 9, 10, 42, 100, u32::MAX] {
        assert_eq!(write_decimal_nat(n), n.to_string());
    }
}

#[test]
fn texts_are_compared_by_their_characters() {
    assert!(same_text("OK", "OK"));
    assert!(!same_text("OK", "ok"));
    assert!(!same_text("OK", "OK "));
}
