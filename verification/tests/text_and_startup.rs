use file_sharing::startup::{log_level, mode, LogLevel, Mode};
use file_sharing::text::{joined, same_bytes, same_text, split_at_spaces, trim};

#[test]
fn trimming() {
    for s in [
        "",
        " ",
        "a",
        "  a b\t",
        "\r\nlist\r\n",
        "\u{3000}get\u{a0}",
        "\u{200b}x",
        "\u{85}\u{1680}\u{2000}\u{200a}\u{2028}\u{2029}\u{202f}\u{205f}y",
        "\u{b}\u{c}z\u{1f}",
    ] {
        assert_eq!(trim(s), s.trim());
        assert_eq!(trim(trim(s)), trim(s));
    }
}

#[test]
fn every_character_of_white_space_is_trimmed() {
    for c in '\u{0}'..='\u{3100}' {
        let s = c.to_string();
        assert_eq!(trim(&s), s.trim(), "{:?}", c);
    }
}

#[test]
fn splitting() {
    assert_eq!(split_at_spaces(""), [""]);
    assert_eq!(split_at_spaces("a"), ["a"]);
    assert_eq!(split_at_spaces("get  x"), ["get", "", "x"]);
    for s in ["", " ", "a b", " a  b ", "a\tb c", "日 本"] {
        assert_eq!(split_at_spaces(s), s.split(' ').collect::<Vec<&str>>());
    }
}

#[test]
fn comparing_and_joining() {
    assert!(same_text("é", "é"));
    assert!(!same_text("e", "é"));
    assert!(!same_text("ab", "a"));
    assert!(same_bytes(&[1, 2], &[1, 2]));
    assert!(!same_bytes(&[1, 2], &[1, 3]));
    assert!(!same_bytes(&[1], &[]));
    assert_eq!(joined("ab", "é"), "abé");
}

#[test]
fn a_server_logs_what_it_does() {
    assert_eq!(log_level(true, LogLevel::Off), LogLevel::Info);
    assert_eq!(log_level(false, LogLevel::Off), LogLevel::Off);
    for asked in [
        LogLevel::Error,
        LogLevel::Warn,
        LogLevel::Info,
        LogLevel::Debug,
        LogLevel::Trace,
    ] {
        assert_eq!(log_level(true, asked), asked);
        assert_eq!(log_level(false, asked), asked);
    }
}

#[test]
fn modes() {
    assert_eq!(mode(true, true), Mode::Server);
    assert_eq!(mode(true, false), Mode::Server);
    assert_eq!(mode(false, true), Mode::Client);
    assert_eq!(mode(false, false), Mode::Nothing);
}

#[test]
fn typed_words_are_read_back() {
    for words in [vec!["list"], vec!["get", "id", "a\tb.txt"], vec!["a", "", "b"]] {
        assert_eq!(split_at_spaces(trim(&words.join(" "))), words);
    }
    assert_eq!(split_at_spaces(trim("get id name ")), ["get", "id", "name"]);
}
