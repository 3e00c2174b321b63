use leptos_cloudflare::text::{check_name, check_value, fold_one, folded, token_char};

#[test]
fn folding_lowers_ascii_letters_only() {
    assert_eq!(folded("Content-TYPE"), "content-type");
    assert_eq!(folded(""), "");
    assert_eq!(folded("AZaz09@[`{"), "azaz09@[`{");
    assert_eq!(folded("\u{c9}cole"), "\u{c9}cole");
    assert_eq!(fold_one('A'), 'a');
    assert_eq!(fold_one('Z'), 'z');
    assert_eq!(fold_one('a'), 'a');
    assert_eq!(fold_one('@'), '@');
    assert_eq!(fold_one('['), '[');
    assert_eq!(fold_one('\u{10ffff}'), '\u{10ffff}');
}

#[test]
fn names_are_non_empty_runs_of_token_characters() {
    assert!(check_name("Content-Type"));
    assert!(check_name("x"));
    assert!(check_name("!#$%&'*+-.^_`|~09azAZ"));
    assert!(!check_name(""));
    assert!(!check_name("a b"));
    assert!(!check_name("a:b"));
    assert!(!check_name("a\tb"));
    assert!(!check_name("(a)"));
    assert!(!check_name("a/b"));
    assert!(!check_name("caf\u{e9}"));
    for c in ['"', '(', ')', ',', '/', ':', ';', '<', '=', '>', '?', '@', '[', '\\', ']', '{', '}', ' ', '\u{7f}'] {
        assert!(!token_char(c));
    }
    for c in ['a', 'z', 'A', 'Z', '0', '9', '!', '~', '`', '|'] {
        assert!(token_char(c));
    }
}

#[test]
fn values_hold_no_nul_or_line_break() {
    assert!(check_value(""));
    assert!(check_value("text/html; charset=utf-8"));
    assert!(check_value("tab\there"));
    assert!(check_value("caf\u{e9}"));
    assert!(!check_value("a\nb"));
    assert!(!check_value("a\rb"));
    assert!(!check_value("a\0b"));
    assert!(!check_value("\n"));
}
