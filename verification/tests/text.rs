use std::path::Path;
use zexp::text::char_is_space;
use zexp::text::chars_of;
use zexp::text::contains_sigil;
use zexp::text::join_path;
use zexp::text::same_text;
use zexp::text::starts_with_sigil;
use zexp::text::tokenize;

fn std_tokens(s: &str) -> Vec<String> {
    s.split_whitespace().map(|w| w.to_string()).collect()
}

fn std_join(base: &str, rel: &str) -> String {
    Path::new(base).join(rel).to_str().unwrap().to_string()
}

#[test]
fn white_space_is_what_unicode_calls_so() {
    let mut n: u32 = 0;
    while n <= 0x10FFFF {
        if let Some(c) = char::from_u32(n) {
            assert_eq!(char_is_space(c), c.is_whitespace(), "U+{:04X}", n);
        }
        n += 1;
    }
}

#[test]
fn white_space_holds_the_named_characters() {
    for c in ['\t', '\n', '\u{0B}', '\u{0C}', '\r', ' ', '\u{85}', '\u{A0}', '\u{1680}'] {
        assert!(char_is_space(c));
    }
    for c in ['\u{2000}', '\u{200A}', '\u{2028}', '\u{2029}', '\u{202F}', '\u{205F}', '\u{3000}'] {
        assert!(char_is_space(c));
    }
    for c in ['a', '$', '-', '\u{8}', '\u{0E}', '\u{200B}', '\u{1FFF}', '\u{FEFF}'] {
        assert!(!char_is_space(c));
    }
}

#[test]
fn tokenize_splits_on_white_space() {
    assert_eq!(tokenize("$app $opts"), vec!["$app", "$opts"]);
    assert_eq!(tokenize("  $app   --x\t$opts \n"), vec!["$app", "--x", "$opts"]);
    assert_eq!(tokenize("one"), vec!["one"]);
}

#[test]
fn tokenize_of_nothing_is_nothing() {
    assert_eq!(tokenize(""), Vec::<String>::new());
    assert_eq!(tokenize(" \t\r\n "), Vec::<String>::new());
}

#[test]
fn tokenize_agrees_with_split_whitespace() {
    let samples = [
        "",
        " ",
        "a",
        " a",
        "a ",
        "a b",
        "a  b",
        "\ta\nb\rc\u{0B}d\u{0C}e",
        "x\u{A0}y\u{2003}z\u{3000}w",
        "$otawa_app $tacle_exec $tacle_entry_point $otawa_opts",
        "caf\u{E9} na\u{EF}ve \u{1F600} end",
        "tab\there\u{85}next\u{1680}ogham\u{2028}line\u{2029}para\u{202F}nn\u{205F}mm",
        "zero\u{200B}width stays",
    ];
    for s in samples {
        assert_eq!(tokenize(s), std_tokens(s), "{:?}", s);
    }
}

#[test]
fn tokens_hold_no_white_space_and_are_not_empty() {
    for word in tokenize(" a\u{2009}bc \t d$e  ") {
        assert!(!word.is_empty());
        assert!(!word.chars().any(|c| c.is_whitespace()));
    }
}

#[test]
fn chars_of_gives_each_character() {
    assert_eq!(chars_of("a$\u{E9}\u{1F600}"), vec!['a', '$', '\u{E9}', '\u{1F600}']);
    assert_eq!(chars_of(""), Vec::<char>::new());
}

#[test]
fn sigil_is_found_anywhere() {
    assert!(contains_sigil("$x"));
    assert!(contains_sigil("a$b"));
    assert!(contains_sigil("ab$"));
    assert!(contains_sigil("\u{E9}\u{1F600}$"));
    assert!(!contains_sigil(""));
    assert!(!contains_sigil("abc"));
    assert!(!contains_sigil("\u{FF04}"));
}

#[test]
fn placeholder_begins_with_the_sigil() {
    assert!(starts_with_sigil("$x"));
    assert!(starts_with_sigil("$"));
    assert!(!starts_with_sigil(""));
    assert!(!starts_with_sigil("a$b"));
    assert!(!starts_with_sigil(" $x"));
}

#[test]
fn same_text_compares_character_by_character() {
    assert!(same_text("", ""));
    assert!(same_text("$otawa_app", "$otawa_app"));
    assert!(!same_text("$otawa_app", "$otawa_opts"));
    assert!(!same_text("abc", "ab"));
    assert!(!same_text("ab", "abc"));
    assert!(!same_text("abc", "abd"));
    assert!(same_text("caf\u{E9}", "caf\u{E9}"));
}

#[test]
fn join_path_puts_a_separator_between() {
    assert_eq!(join_path("/opt/tacle", "kernel"), "/opt/tacle/kernel");
    assert_eq!(join_path("/opt/tacle/", "kernel"), "/opt/tacle/kernel");
    assert_eq!(join_path("kernel", "bs/bs.elf"), "kernel/bs/bs.elf");
}

#[test]
fn join_path_edges() {
    assert_eq!(join_path("", "kernel"), "kernel");
    assert_eq!(join_path("", ""), "");
    assert_eq!(join_path("a", ""), "a/");
    assert_eq!(join_path("a/", ""), "a/");
    assert_eq!(join_path("/", "a"), "/a");
    assert_eq!(join_path("/opt/tacle", "/abs/bs.elf"), "/abs/bs.elf");
    assert_eq!(join_path("", "/abs"), "/abs");
}

#[test]
fn join_path_agrees_with_the_path_type() {
    let parts = ["", "/", "a", "a/", "/a", "/a/", "a/b", "../x", "./y", "a//", "\u{E9}t\u{E9}"];
    for base in parts {
        for rel in parts {
            assert_eq!(join_path(base, rel), std_join(base, rel), "{:?} {:?}", base, rel);
        }
    }
}
