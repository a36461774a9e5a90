use cursor_server::token_count::{format_token_count, parse_token_count};

#[test]
fn token_counts_parse_plain_and_abbreviated_values() {
    assert_eq!(parse_token_count("272000"), Some(272_000));
    assert_eq!(parse_token_count("272K"), Some(272_000));
    assert_eq!(parse_token_count("1m"), Some(1_000_000));
    assert_eq!(parse_token_count("invalid"), None);
}

#[test]
fn token_counts_format_exact_thousands_and_millions() {
    assert_eq!(format_token_count(272_000), "272K");
    assert_eq!(format_token_count(1_000_000), "1M");
    assert_eq!(format_token_count(272_001), "272001");
}

#[test]
fn token_counts_trim_and_accept_a_plus_sign() {
    assert_eq!(parse_token_count("  12k \n"), Some(12_000));
    assert_eq!(parse_token_count("+5"), Some(5));
    assert_eq!(parse_token_count("-5"), None);
    assert_eq!(parse_token_count(""), None);
    assert_eq!(parse_token_count("k"), None);
    assert_eq!(parse_token_count("18446744073709551615"), Some(u64::MAX));
    assert_eq!(parse_token_count("18446744073709551616"), None);
    assert_eq!(parse_token_count("18446744073709552k"), None);
}

#[test]
fn token_counts_format_small_and_mixed_values() {
    assert_eq!(format_token_count(0), "0");
    assert_eq!(format_token_count(999), "999");
    assert_eq!(format_token_count(1_500_000), "1500K");
    assert_eq!(format_token_count(2_000_000_000), "2000M");
}

#[test]
fn formatted_counts_parse_back() {
    for tokens in [0u64, 7, 1_000, 272_000, 1_000_000, 1_234_567, 5_000_000] {
        assert_eq!(parse_token_count(&format_token_count(tokens)), Some(tokens));
    }
}
