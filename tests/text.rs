use ergo_cf::{clean_path_name, contains_text, decimal_text, parse_u64, remove_quotes};

#[test]
fn clean_path_name_strips_spaces_and_line_feeds() {
    let mut p = String::from(".storage/campaigns/My Great\nCampaign .campaign");
    clean_path_name(&mut p);
    assert_eq!(p, ".storage/campaigns/MyGreatCampaign.campaign");
}

#[test]
fn clean_path_name_keeps_other_text() {
    let mut p = String::from("plain-name_1.campaign");
    clean_path_name(&mut p);
    assert_eq!(p, "plain-name_1.campaign");
    let mut e = String::new();
    clean_path_name(&mut e);
    assert_eq!(e, "");
}

#[test]
fn parse_u64_reads_numerals_only() {
    assert_eq!(parse_u64("0"), Some(0));
    assert_eq!(parse_u64("650000"), Some(650000));
    assert_eq!(parse_u64("18446744073709551615"), Some(u64::MAX));
    assert_eq!(parse_u64("18446744073709551616"), None);
    assert_eq!(parse_u64(""), None);
    assert_eq!(parse_u64("12a"), None);
    assert_eq!(parse_u64("+5"), None);
    assert_eq!(parse_u64(" 5"), None);
}

#[test]
fn decimal_text_writes_shortest_numeral() {
    assert_eq!(decimal_text(0), "0");
    assert_eq!(decimal_text(7), "7");
    assert_eq!(decimal_text(1000000000), "1000000000");
    assert_eq!(decimal_text(u64::MAX), "18446744073709551615");
}

#[test]
fn contains_text_finds_substrings() {
    assert!(contains_text("error: bad.request here", "bad.request"));
    assert!(contains_text("abc", ""));
    assert!(contains_text("abc", "abc"));
    assert!(!contains_text("ab", "abc"));
    assert!(!contains_text("bad_request", "bad.request"));
}

#[test]
fn remove_quotes_drops_every_quote() {
    assert_eq!(remove_quotes("\"a1b2\""), "a1b2");
    assert_eq!(remove_quotes("no quotes"), "no quotes");
    assert_eq!(remove_quotes("\"\""), "");
}
