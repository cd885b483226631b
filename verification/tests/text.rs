use seadrop_sniper::endpoints::{accept_url, expand_key};
use seadrop_sniper::chains::ChainProfile;
use seadrop_sniper::hexdata::B256;
use seadrop_sniper::rpc_url::Url;
use seadrop_sniper::seadrop::{hash_head, join_call};
use seadrop_sniper::snipe::SnipeError;
use seadrop_sniper::text::{
    contains, ends_with, parse_i64, parse_u128, parse_u64, parse_usize, same, split, split_once,
    starts_with, strip_prefix, take_word, to_ascii_lowercase, to_decimal, trim,
};

#[test]
fn white_space_is_trimmed() {
    assert_eq!(trim(" \t\u{a0}a b\u{3000}\n"), "a b");
    assert_eq!(trim(" \n "), "");
    assert_eq!(trim("é"), "é");
}

#[test]
fn texts_are_searched() {
    assert!(contains("abcabd", "abd"));
    assert!(contains("abc", ""));
    assert!(!contains("ab", "abc"));
    assert!(starts_with("abc", "ab") && !starts_with("abc", "b"));
    assert!(ends_with("abc", "bc") && !ends_with("abc", "b"));
    assert!(same("é", "é") && !same("e", "é"));
}

#[test]
fn texts_are_split() {
    assert_eq!(split("a,,b", ','), vec!["a".to_owned(), String::new(), "b".to_owned()]);
    assert_eq!(split("", ','), vec![String::new()]);
    assert_eq!(split_once("a.b.c", '.'), Some(("a", "b.c")));
    assert_eq!(split_once("abc", '.'), None);
    assert_eq!(strip_prefix("chain:base", "chain:"), Some("base"));
    assert_eq!(strip_prefix("base", "chain:"), None);
    assert_eq!(take_word("  snipe now"), "snipe");
    assert_eq!(take_word("  "), "");
}

#[test]
fn letters_are_lowered() {
    assert_eq!(to_ascii_lowercase("ABC xyz É1"), "abc xyz É1");
}

#[test]
fn numbers_are_written_and_read_back() {
    for n in [0, 7, 10, 1_234_567_890, u128::MAX] {
        assert_eq!(to_decimal(n), n.to_string());
        assert_eq!(parse_u128(&to_decimal(n)), Some(n));
    }
}

#[test]
fn numbers_are_read_within_their_bounds() {
    assert_eq!(parse_u64("18446744073709551615"), Some(u64::MAX));
    assert_eq!(parse_u64("18446744073709551616"), None);
    assert_eq!(parse_u64("+5"), Some(5));
    assert_eq!(parse_u64("-5"), None);
    assert_eq!(parse_u64("+"), None);
    assert_eq!(parse_u64(""), None);
    assert_eq!(parse_u64("5 "), None);
    assert_eq!(parse_usize("007"), Some(7));
    assert_eq!(parse_i64("-9223372036854775808"), Some(i64::MIN));
    assert_eq!(parse_i64("9223372036854775808"), None);
    assert_eq!(parse_i64("-"), None);
    assert_eq!(parse_u128("340282366920938463463374607431768211456"), None);
}

#[test]
fn calls_are_joined() {
    assert_eq!(join_call([1, 2, 3, 4], &[5, 6]), vec![1, 2, 3, 4, 5, 6]);
    let mut bytes = [0; 32];
    bytes[..5].copy_from_slice(&[9, 8, 7, 6, 5]);
    assert_eq!(hash_head(&B256 { bytes }), [9, 8, 7, 6]);
}

#[test]
fn addresses_in_full_are_accepted_or_not() {
    let safe = Url::parse("https://a.org").unwrap();
    assert_eq!(accept_url(Some(safe.clone()), "a", "b").unwrap(), safe);
    let unsafe_one = Url::parse("http://a.org").unwrap();
    match accept_url(Some(unsafe_one), "a", "b") {
        Err(SnipeError::InvalidRpc(told)) => assert_eq!(told, "b"),
        other => panic!("{other:?}"),
    }
    match accept_url(None, "a", "b") {
        Err(SnipeError::InvalidRpc(told)) => assert_eq!(told, "a"),
        other => panic!("{other:?}"),
    }
}

#[test]
fn any_key_makes_an_address() {
    let url = expand_key(ChainProfile::Ethereum, "k@e y?#\\").unwrap();
    assert_eq!(url.host.as_deref(), Some("eth-mainnet.g.alchemy.com"));
    assert_eq!(url.scheme, "https");
    assert!(url.text.starts_with("https://eth-mainnet.g.alchemy.com/v2/"));
}
