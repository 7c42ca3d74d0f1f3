use neoiot::text::parse_usize;
use neoiot::text::split_slash;
use neoiot::text::str_eq;
use neoiot::text::to_dec;

#[test]
fn decimal_rendering_is_canonical() {
    assert_eq!(to_dec(0), "0");
    assert_eq!(to_dec(7), "7");
    assert_eq!(to_dec(3600), "3600");
    assert_eq!(to_dec(usize::MAX), usize::MAX.to_string());
}

#[test]
fn parsing_accepts_what_the_standard_parser_accepts() {
    assert_eq!(parse_usize("0"), Some(0));
    assert_eq!(parse_usize("3600"), Some(3600));
    assert_eq!(parse_usize("007"), Some(7));
    assert_eq!(parse_usize("+12"), Some(12));
    assert_eq!(parse_usize(""), None);
    assert_eq!(parse_usize("+"), None);
    assert_eq!(parse_usize("-1"), None);
    assert_eq!(parse_usize("12x"), None);
    assert_eq!(parse_usize(" 12"), None);
    let max = usize::MAX.to_string();
    assert_eq!(parse_usize(&max), Some(usize::MAX));
    // One past the maximum overflows and is rejected.
    assert_eq!(parse_usize("18446744073709551616"), None);
}

#[test]
fn splitting_matches_the_standard_splitter() {
    for s in ["", "/", "a", "a/b", "a//b/", "s2d/acc/dev/cmd/sync/mid"] {
        let mine = split_slash(s);
        let std_split: Vec<String> = s.split('/').map(|p| p.to_string()).collect();
        assert_eq!(mine, std_split);
    }
}

#[test]
fn character_equality_matches_string_equality() {
    assert!(str_eq("", ""));
    assert!(str_eq("sync", "sync"));
    assert!(!str_eq("sync", "async"));
    assert!(!str_eq("sync", "syn"));
}
