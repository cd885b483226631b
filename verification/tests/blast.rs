use seadrop_sniper::arming::{Arming, Minter};
use seadrop_sniper::blast::{
    blast_to_all, is_accepted, is_already_known, label_from_url, parse_endpoints, prepare_blast,
    read_reply, rejection_reasons, warm_connections, BlastError, BlastResult, SignedTransaction,
};
use seadrop_sniper::chain::{AccountState, FeeEstimate};
use seadrop_sniper::hexdata::{Address, B256};
use seadrop_sniper::json::Json;
use seadrop_sniper::outcome::{
    broadcast_hash, collect_results, report_receipt, report_refusal, settle, Level, WalletResults,
};
use seadrop_sniper::rpc_url::{validate_rpc_url, Url};
use seadrop_sniper::seadrop::{mint_plan, PublicDrop};
use seadrop_sniper::snipe::SnipeError;
use seadrop_sniper::uint::U256;

fn hash(byte: u8) -> B256 {
    B256 { bytes: [byte; 32] }
}

fn took(byte: u8) -> BlastResult {
    BlastResult { label: "rpc".to_owned(), tx_hash: Some(hash(byte)), error: None }
}

fn refused(error: &str) -> BlastResult {
    BlastResult { label: "rpc".to_owned(), tx_hash: None, error: Some(error.to_owned()) }
}

fn text(value: &str) -> Json {
    Json::Text(value.to_owned())
}

fn object(members: Vec<(&str, Json)>) -> Json {
    Json::Object(members.into_iter().map(|(name, value)| (name.to_owned(), value)).collect())
}

fn drop_of(price: u128) -> PublicDrop {
    PublicDrop {
        mint_price: U256::from(price),
        start_time: 1_785_542_400,
        end_time: 1_788_220_800,
        max_total_mintable_by_wallet: 10,
        fee_bps: 250,
        restrict_fee_recipients: true,
    }
}

#[test]
fn labels_use_hostname() {
    let url = Url::parse("https://mainnet.base.org").unwrap();
    assert_eq!(label_from_url(&url), "mainnet.base.org");
}

#[test]
fn already_known_detection() {
    assert!(is_already_known("nonce too low - transaction already known"));
    assert!(!is_already_known("insufficient funds for gas"));
}

#[test]
fn already_known_ignores_case_and_knows_both_wordings() {
    assert!(is_already_known("ALREADY KNOWN"));
    assert!(is_already_known("tx Already Exists in pool"));
    assert!(!is_already_known(""));
}

#[test]
fn an_address_without_a_host_is_its_own_label() {
    let url = Url::parse("data:text/plain,hello").unwrap();
    assert_eq!(url.host, None);
    assert_eq!(label_from_url(&url), "data:text/plain,hello");
}

#[test]
fn endpoints_keep_their_order() {
    let urls = vec![
        Url::parse("https://mainnet.base.org").unwrap(),
        Url::parse("http://127.0.0.1:8545/x").unwrap(),
    ];
    let endpoints = parse_endpoints(&urls);
    assert_eq!(endpoints.len(), 2);
    assert_eq!(endpoints[0].label, "mainnet.base.org");
    assert_eq!(endpoints[0].url, urls[0]);
    assert_eq!(endpoints[1].label, "127.0.0.1");
    assert_eq!(endpoints[1].url.text, "http://127.0.0.1:8545/x");
}

#[test]
fn a_url_is_parsed_into_its_parts() {
    let url = Url::parse(" HTTPS://Example.COM/a/b%20c?q ").unwrap();
    assert_eq!(url.text, "https://example.com/a/b%20c?q");
    assert_eq!(url.scheme, "https");
    assert_eq!(url.host.as_deref(), Some("example.com"));
    assert_eq!(url.segments, vec!["a".to_owned(), "b%20c".to_owned()]);
    assert!(Url::parse("not a url").is_none());
    assert_eq!(url.clone(), url);
}

#[test]
fn only_https_and_loopback_http_are_safe() {
    for (raw, safe) in [
        ("https://example.com", true),
        ("http://localhost:8545", true),
        ("http://127.0.0.1", true),
        ("http://[::1]:8545", true),
        ("http://[::2]:8545", false),
        ("http://example.com", false),
        ("ftp://localhost", false),
    ] {
        assert_eq!(validate_rpc_url(&Url::parse(raw).unwrap()), safe, "{raw}");
    }
}

#[test]
fn the_body_is_built_once() {
    let signed = SignedTransaction { hash: hash(7), raw: vec![0x02, 0xf8, 0x00, 0xab] };
    let prepared = prepare_blast(&signed);
    assert_eq!(prepared.tx_hash, hash(7));
    assert_eq!(
        prepared.body,
        "{\"id\":1,\"jsonrpc\":\"2.0\",\"method\":\"eth_sendRawTransaction\",\"params\":[\"0x02f800ab\"]}"
    );
}

#[test]
fn every_endpoint_gets_the_same_body() {
    let urls = vec![
        Url::parse("https://a.org").unwrap(),
        Url::parse("https://b.org").unwrap(),
    ];
    let endpoints = parse_endpoints(&urls);
    let prepared = prepare_blast(&SignedTransaction { hash: hash(1), raw: vec![1] });
    let requests = blast_to_all(&prepared, &endpoints);
    assert_eq!(requests.len(), 2);
    assert_eq!(requests[0].url, urls[0]);
    assert_eq!(requests[1].url, urls[1]);
    assert_eq!(requests[1].label, "b.org");
    assert_eq!(requests[0].body, prepared.body);
    assert_eq!(requests[1].body, prepared.body);

    let warm = warm_connections(&endpoints);
    assert_eq!(warm.len(), 2);
    assert_eq!(
        warm[0].body,
        "{\"id\":1,\"jsonrpc\":\"2.0\",\"method\":\"eth_sendRawTransaction\",\"params\":[\"0x00\"]}"
    );
}

#[test]
fn a_reply_counts_only_with_the_expected_hash() {
    let expected = hash(0xab);
    let good = object(vec![("result", text(&expected.to_text()))]);
    let result = read_reply("a".to_owned(), &expected, Ok(good));
    assert_eq!(result.label, "a");
    assert_eq!(result.tx_hash, Some(expected));
    assert_eq!(result.error, None);

    let other = object(vec![("result", text(&hash(1).to_text()))]);
    let result = read_reply("a".to_owned(), &expected, Ok(other));
    assert_eq!(result.tx_hash, None);
    assert_eq!(result.error, None);

    let junk = object(vec![("result", text("0x12"))]);
    let result = read_reply("a".to_owned(), &expected, Ok(junk));
    assert_eq!(result.tx_hash, None);
    assert_eq!(result.error, None);
}

#[test]
fn a_reply_without_a_result_is_an_error() {
    let expected = hash(1);
    let error = object(vec![("error", object(vec![("message", text("nonce too low"))]))]);
    let result = read_reply("a".to_owned(), &expected, Ok(error));
    assert_eq!(result.tx_hash, None);
    assert_eq!(result.error.as_deref(), Some("nonce too low"));

    let result = read_reply("a".to_owned(), &expected, Ok(Json::Null));
    assert_eq!(result.error.as_deref(), Some("unknown RPC error"));

    let result = read_reply("a".to_owned(), &expected, Err("timed out".to_owned()));
    assert_eq!(result.error.as_deref(), Some("timed out"));
}

#[test]
fn a_hash_is_accepted() {
    assert!(is_accepted(&[refused("nonce too low"), took(1)]));
    assert!(!is_accepted(&[refused("nonce too low")]));
    assert!(!is_accepted(&[]));
}

#[test]
fn already_known_counts_only_from_every_endpoint() {
    assert!(is_accepted(&[refused("already known"), refused("Already exists")]));
    assert!(!is_accepted(&[refused("already known"), refused("nonce too low")]));
}

#[test]
fn each_reason_is_told_once() {
    let results = vec![
        refused("b"),
        refused("a"),
        took(1),
        refused("b"),
        BlastResult { label: "x".to_owned(), tx_hash: None, error: None },
    ];
    assert_eq!(rejection_reasons(&results), vec!["b", "a"]);
}

#[test]
fn wallets_are_parted_by_acceptance() {
    let fired = vec![
        WalletResults { index: 0, address: Address { bytes: [1; 20] }, results: vec![took(1)] },
        WalletResults { index: 1, address: Address { bytes: [2; 20] }, results: vec![refused("x")] },
        WalletResults { index: 2, address: Address { bytes: [3; 20] }, results: vec![took(3)] },
    ];
    let (accepted, rejected) = collect_results(fired);
    assert_eq!(accepted.iter().map(|w| w.index).collect::<Vec<_>>(), vec![0, 2]);
    assert_eq!(rejected.iter().map(|w| w.index).collect::<Vec<_>>(), vec![1]);
    assert_eq!(broadcast_hash(&accepted[1].results), hash(3).to_text());
    assert_eq!(broadcast_hash(&rejected[0].results), "");
}

#[test]
fn a_refusal_is_explained() {
    let address = Address::parse("0xd8da6bf26964af9d7eed9e03e53415d37aa96045").unwrap();
    let wallet = WalletResults {
        index: 3,
        address,
        results: vec![
            refused("max fee per gas less than block base fee: x"),
            refused("max fee per gas less than block base fee: x"),
        ],
    };
    assert_eq!(
        report_refusal(&wallet),
        vec![
            "[W3] 0xd8dA6BF26964aF9D7eEd9e03E53415D37aA96045 REJECTED by every RPC — never broadcast"
                .to_owned(),
            "    max fee per gas less than block base fee: x".to_owned(),
            "    → max fee is under the chain's base fee. Raise it and re-run.".to_owned(),
        ]
    );
    let settled = settle(vec![
        WalletResults { index: 0, address, results: vec![refused("no")] },
        WalletResults { index: 1, address, results: vec![took(9)] },
    ]);
    assert_eq!(settled.warnings.len(), 2);
    assert_eq!(settled.warnings[1], "    no");
    assert_eq!(settled.accepted.len(), 1);
    assert_eq!(settled.accepted[0].index, 1);
}

#[test]
fn receipts_are_reported() {
    let address = Address::parse("0xd8da6bf26964af9d7eed9e03e53415d37aa96045").unwrap();
    let receipt = seadrop_sniper::chain::TransactionReceipt { is_success: true, block_number: 17 };
    let lines = report_receipt(8453, 2, address, "0xab", Some(receipt));
    assert_eq!(lines.len(), 2);
    assert_eq!(lines[0].level, Level::Success);
    assert_eq!(
        lines[0].text,
        "[W2] 0xd8dA6BF26964aF9D7eEd9e03E53415D37aA96045 | block 17 | SUCCESS"
    );
    assert_eq!(lines[1].level, Level::Info);
    assert_eq!(lines[1].text, "[W2] track: https://basescan.org/tx/0xab");

    let failed = seadrop_sniper::chain::TransactionReceipt { is_success: false, block_number: 17 };
    let lines = report_receipt(1, 2, address, "0xab", Some(failed));
    assert_eq!(lines[0].level, Level::Error);
    assert!(lines[0].text.ends_with("| block 17 | FAILED"));
    assert_eq!(lines[1].text, "[W2] track: https://etherscan.io/tx/0xab");

    let lines = report_receipt(99, 2, address, "0xab", None);
    assert_eq!(lines.len(), 1);
    assert_eq!(lines[0].level, Level::Warning);
    assert_eq!(lines[0].text, "[W2] TIMEOUT — check: https://basescan.org/tx/0xab");
}

#[test]
fn nothing_is_dispatched_before_all_have_signed() {
    let nft = Address { bytes: [9; 20] };
    let fee = Address { bytes: [8; 20] };
    let base = mint_plan(nft, 1, drop_of(1_000), fee);
    let fees = FeeEstimate {
        max_fee_per_gas: U256::from(10u128),
        max_priority_fee_per_gas: U256::from(1u128),
    };
    let minters = vec![
        Minter { address: Address { bytes: [1; 20] }, quantity: 2 },
        Minter { address: Address { bytes: [2; 20] }, quantity: 3 },
    ];
    let mut arming = Arming::plan(8453, 21_000, fees, nft, &base, &minters);
    assert_eq!(arming.next_wallet(), Some(0));

    let account = AccountState { balance: U256::from(212_000u128), pending_nonce: 5 };
    let transaction = arming.next_transaction(account).unwrap();
    assert_eq!(transaction.chain_id, 8453);
    assert_eq!(transaction.nonce, 5);
    assert_eq!(transaction.gas_limit, 21_000);
    assert_eq!(transaction.value, U256::from(2_000u128));
    assert_eq!(transaction.max_fee_per_gas, U256::from(10u128));
    assert_eq!(transaction.max_priority_fee_per_gas, U256::from(1u128));
    assert_eq!(transaction.target, base.to);
    assert_eq!(transaction.calldata.len(), 132);
    assert_eq!(transaction.calldata[131], 2);

    arming.signed(&SignedTransaction { hash: hash(1), raw: vec![1] });
    assert_eq!(arming.next_wallet(), Some(1));
    let account = AccountState { balance: U256::from(212_999u128), pending_nonce: 0 };
    match arming.next_transaction(account) {
        Err(SnipeError::Underfunded { address, balance, required, affordable }) => {
            assert_eq!(address, Address { bytes: [2; 20] });
            assert_eq!(balance, U256::from(212_999u128));
            assert_eq!(required, U256::from(213_000u128));
            assert_eq!(affordable, "0.000");
        }
        other => panic!("{other:?}"),
    }
    arming.signed(&SignedTransaction { hash: hash(2), raw: vec![2] });
    assert_eq!(arming.next_wallet(), None);

    let endpoints = parse_endpoints(&[
        Url::parse("https://a.org").unwrap(),
        Url::parse("https://b.org").unwrap(),
    ]);
    let blasts = arming.dispatch(&endpoints);
    assert_eq!(blasts.len(), 2);
    assert_eq!(blasts[1].index, 1);
    assert_eq!(blasts[1].tx_hash, hash(2));
    assert_eq!(blasts[1].requests.len(), 2);
    assert!(blasts[1].requests[0].body.contains("\"0x02\""));
    assert_eq!(blasts[1].requests[0].body, blasts[1].requests[1].body);
    assert_eq!(blasts[0].requests[1].url.text, "https://b.org/");
}

#[test]
fn a_missing_client_is_told() {
    assert_eq!(BlastError::Client.message(), "cannot construct the RPC HTTP client");
}
