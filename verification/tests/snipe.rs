use seadrop_sniper::blast::BlastError;
use seadrop_sniper::chain::{ChainError, FeeEstimate, TransactionReceipt};
use seadrop_sniper::chains::{
    chain_by_id, chain_name, explorer_url, resolve_chain, ChainProfile,
};
use seadrop_sniper::clock::{clamp_millis, unix_millis};
use seadrop_sniper::endpoints::{order_endpoints, resolve_rpc_candidates, run_probe};
use seadrop_sniper::funding::{
    check_funds, effective_gas_limit, fees_from_base, fees_from_estimate, load_wallets, start_fees,
    FeeStep, WalletChoice, WalletSource,
};
use seadrop_sniper::hexdata::Address;
use seadrop_sniper::json::Json;
use seadrop_sniper::locate::{
    api_key_header, resolve_nft_contract, resolve_slug, slug_url, Locator, SlugReply,
};
use seadrop_sniper::rpc_url::Url;
use seadrop_sniper::seadrop::SeadropError;
use seadrop_sniper::snipe::{ether_parts, format_gwei, parse_gwei, SnipeError, SnipeOptions};
use seadrop_sniper::timing::{
    choose_launch, fire_time, receipt_hash, since_stage, stage_start_millis, wait_for_receipt,
    wait_until_fire, Launch, ReceiptStep, WaitAction, WaitPhase,
};
use seadrop_sniper::uint::U256;

const ADDRESS: &str = "0xd8da6bf26964af9d7eed9e03e53415d37aa96045";

fn address() -> Address {
    Address::parse(ADDRESS).unwrap()
}

fn wei(n: u128) -> U256 {
    U256::from(n)
}

fn url(text: &str) -> Url {
    Url::parse(text).unwrap()
}

fn text(value: &str) -> Json {
    Json::Text(value.to_owned())
}

fn object(members: Vec<(&str, Json)>) -> Json {
    Json::Object(members.into_iter().map(|(name, value)| (name.to_owned(), value)).collect())
}

fn invalid_gas(value: &str) -> String {
    match parse_gwei(value) {
        Err(SnipeError::InvalidGas(told)) => told,
        other => panic!("{other:?}"),
    }
}

#[test]
fn parses_gwei_decimal() {
    assert_eq!(parse_gwei("0.05").unwrap(), U256::from(50_000_000u128));
    assert_eq!(parse_gwei("200").unwrap(), U256::from(200_000_000_000u128));
    assert_eq!(parse_gwei("0").unwrap(), U256::from(0u128));
    assert_eq!(
        parse_gwei("1.234567891").unwrap(),
        U256::from(1_234_567_891u128)
    );
}

#[test]
fn rejects_bad_gwei() {
    assert!(parse_gwei("1.0000000000").is_err());
    assert!(parse_gwei("abc").is_err());
    assert!(parse_gwei("").is_err());
}

#[test]
fn formats_gwei() {
    assert_eq!(format_gwei(U256::from(50_000_000u128)), "0.050");
    assert_eq!(format_gwei(U256::from(200_000_000_000u128)), "200.000");
}

#[test]
fn orders_sequencers_last() {
    let base = url("https://mainnet.base.org");
    let seq = url("https://mainnet-sequencer.base.org");
    let ordered = order_endpoints(vec![(seq.clone(), 8453), (base.clone(), 8453)]);
    assert_eq!(ordered[0].0, base);
    assert_eq!(ordered[1].0, seq);
}

#[test]
fn gwei_may_lack_a_side() {
    assert_eq!(parse_gwei(".5").unwrap(), wei(500_000_000));
    assert_eq!(parse_gwei("5.").unwrap(), wei(5_000_000_000));
    assert_eq!(parse_gwei(" 7 ").unwrap(), wei(7_000_000_000));
    assert_eq!(parse_gwei("+1").unwrap(), wei(1_000_000_000));
    assert_eq!(invalid_gas("."), ".");
}

#[test]
fn gwei_errors_tell_the_value() {
    assert_eq!(invalid_gas(" x "), " x ");
    assert_eq!(invalid_gas("1.2x"), "1.2x");
    assert_eq!(invalid_gas("1.2.3"), "1.2.3");
    assert_eq!(invalid_gas("-1"), "-1");
    assert_eq!(invalid_gas("1.0000000000"), "more than 9 decimal places (gwei precision)");
    assert_eq!(invalid_gas("x.0000000000"), "x.0000000000");
    let huge = "340282366920938463463374607431768211456";
    assert_eq!(invalid_gas(huge), huge);
    let wide = "340282366920938463463374607431.768211456";
    assert_eq!(invalid_gas(wide), wide);
    assert_eq!(
        parse_gwei("340282366920938463463374607431.768211455").unwrap(),
        wei(u128::MAX)
    );
}

#[test]
fn gwei_text_drops_what_lies_beyond_three_places() {
    assert_eq!(format_gwei(wei(0)), "0.000");
    assert_eq!(format_gwei(wei(999_999)), "0.000");
    assert_eq!(format_gwei(wei(1_234_567_891)), "1.234");
    assert_eq!(parse_gwei(&format_gwei(wei(1_234_567_891))).unwrap(), wei(1_234_000_000));
    assert_eq!(
        format_gwei(U256 { limbs: [u64::MAX; 4] }),
        "115792089237316195423570985008687907853269984665640564039457584007913.129"
    );
}

#[test]
fn ether_is_parted() {
    assert_eq!(
        ether_parts(wei(5_600_000_000_000_000)),
        ("0".to_owned(), "5600000000000000".to_owned())
    );
    assert_eq!(
        ether_parts(wei(2_000_000_000_000_000_007)),
        ("2".to_owned(), "7".to_owned())
    );
    assert_eq!(wei(12).to_text(), "12");
}

#[test]
fn options_have_defaults() {
    let options = SnipeOptions::default();
    assert_eq!(options.gas_limit, 250_000);
    assert_eq!(options.quantity, None);
    assert_eq!(options.early_fire_ms, 0);
    assert!(!options.fire_now);
    assert!(options.collection.is_empty() && options.rpc_urls.is_empty());
}

#[test]
fn chains_are_found_by_name_and_number() {
    assert_eq!(resolve_chain("base"), Some(ChainProfile::Base));
    assert_eq!(resolve_chain("Base"), None);
    assert_eq!(chain_by_id(4663), Some(ChainProfile::Robinhood));
    assert_eq!(chain_by_id(2), None);
    assert_eq!(chain_name(1), "ethereum");
    assert_eq!(chain_name(2), "unknown");
    for profile in [ChainProfile::Ethereum, ChainProfile::Base, ChainProfile::Robinhood] {
        assert_eq!(resolve_chain(profile.key()), Some(profile));
        assert_eq!(chain_by_id(profile.chain_id()), Some(profile));
    }
}

#[test]
fn explorers_belong_to_chains() {
    assert_eq!(explorer_url(1, "0xab"), "https://etherscan.io/tx/0xab");
    assert_eq!(explorer_url(4663, "0xab"), "https://robinhoodchain.blockscout.com/tx/0xab");
    assert_eq!(explorer_url(77, "0xab"), "https://basescan.org/tx/0xab");
}

#[test]
fn the_clock_counts_from_the_epoch() {
    assert!(unix_millis() > 1_600_000_000_000);
    assert_eq!(clamp_millis(None), 0);
    assert_eq!(clamp_millis(Some(5)), 5);
    assert_eq!(clamp_millis(Some(u128::MAX)), i64::MAX);
}

#[test]
fn an_address_names_itself() {
    match resolve_nft_contract(&format!("  {}  ", address().to_text())) {
        Ok(Locator::Contract(found)) => assert_eq!(found, address()),
        other => panic!("{other:?}"),
    }
    match resolve_nft_contract("0x12") {
        Err(SnipeError::InvalidCollection(told)) => assert_eq!(told, "0x12"),
        other => panic!("{other:?}"),
    }
}

#[test]
fn a_url_names_an_address_or_a_slug() {
    let link = format!("https://opensea.io/item/base/{ADDRESS}/1");
    match resolve_nft_contract(&link) {
        Ok(Locator::Contract(found)) => assert_eq!(found, address()),
        other => panic!("{other:?}"),
    }
    match resolve_nft_contract("https://opensea.io/collection/my-drop") {
        Ok(Locator::Slug(slug)) => assert_eq!(slug, "my-drop"),
        other => panic!("{other:?}"),
    }
    match resolve_nft_contract("https://opensea.io/0x12/") {
        Ok(Locator::Slug(slug)) => assert_eq!(slug, ""),
        other => panic!("{other:?}"),
    }
    match resolve_nft_contract("https://") {
        Err(SnipeError::InvalidCollection(told)) => assert_eq!(told, "https://"),
        other => panic!("{other:?}"),
    }
    match resolve_nft_contract(" my-drop ") {
        Ok(Locator::Slug(slug)) => assert_eq!(slug, "my-drop"),
        other => panic!("{other:?}"),
    }
}

#[test]
fn lookups_carry_the_key() {
    assert_eq!(slug_url("x"), "https://api.opensea.io/api/v2/collections/x");
    assert_eq!(api_key_header(Some(" k ")).as_deref(), Some("k"));
    assert_eq!(api_key_header(Some("  ")), None);
    assert_eq!(api_key_header(None), None);
}

fn answer(status: u16, body: Result<Json, String>) -> SlugReply {
    SlugReply::Answer { status, status_text: format!("{status} Whatever"), body }
}

fn lookup_error(reply: SlugReply) -> String {
    match resolve_slug("x", reply) {
        Err(SnipeError::SlugLookup(told)) => told,
        other => panic!("{other:?}"),
    }
}

#[test]
fn a_lookup_finds_the_first_contract() {
    let body = object(vec![(
        "contracts",
        Json::Array(vec![
            object(vec![("chain", text("base")), ("address", text(ADDRESS))]),
            object(vec![("address", text("0x"))]),
        ]),
    )]);
    assert_eq!(resolve_slug("x", answer(200, Ok(body))).unwrap(), address());
}

#[test]
fn a_lookup_fails_in_words() {
    assert_eq!(lookup_error(SlugReply::Failed("offline".to_owned())), "offline");
    let refused =
        "OpenSea refused the lookup (401/403) — the slug may be misspelled, or it wants an API key";
    assert_eq!(lookup_error(answer(401, Ok(Json::Null))), refused);
    assert_eq!(lookup_error(answer(403, Ok(Json::Null))), refused);
    assert_eq!(
        lookup_error(answer(404, Ok(Json::Null))),
        "no OpenSea collection called \"x\""
    );
    assert_eq!(
        lookup_error(answer(429, Ok(Json::Null))),
        "OpenSea rate-limited the lookup — retry shortly"
    );
    assert_eq!(
        lookup_error(answer(500, Ok(Json::Null))),
        "could not resolve \"x\": 500 Whatever"
    );
    assert_eq!(lookup_error(answer(200, Err("bad body".to_owned()))), "bad body");
    assert_eq!(
        lookup_error(answer(200, Ok(Json::Null))),
        "no contracts listed for \"x\""
    );
    assert_eq!(
        lookup_error(answer(200, Ok(object(vec![("contracts", Json::Array(vec![]))])))),
        "no contracts listed for \"x\""
    );
    assert_eq!(
        lookup_error(answer(200, Ok(object(vec![("contracts", Json::Array(vec![Json::Null]))])))),
        "malformed contract entry for \"x\""
    );
    let body = object(vec![(
        "contracts",
        Json::Array(vec![object(vec![("address", text("0x1"))])]),
    )]);
    match resolve_slug("x", answer(299, Ok(body))) {
        Err(SnipeError::InvalidCollection(told)) => assert_eq!(told, "0x1"),
        other => panic!("{other:?}"),
    }
}

fn options(rpc_urls: &[&str], chain: Option<&str>) -> SnipeOptions {
    let mut options = SnipeOptions::default();
    options.rpc_urls = rpc_urls.iter().map(|url| (*url).to_owned()).collect();
    options.chain = chain.map(|chain| chain.to_owned());
    options
}

fn candidate_texts(options: &SnipeOptions, env: Option<&str>) -> Vec<String> {
    resolve_rpc_candidates(options, env).unwrap().into_iter().map(|url| url.text).collect()
}

fn bad_rpc(options: &SnipeOptions, env: Option<&str>) -> String {
    match resolve_rpc_candidates(options, env) {
        Err(SnipeError::InvalidRpc(told)) => told,
        other => panic!("{other:?}"),
    }
}

#[test]
fn listed_endpoints_win() {
    let listed = options(&[" ", " https://a.org ", "http://localhost:1"], Some("base"));
    assert_eq!(
        candidate_texts(&listed, Some("https://env.org")),
        vec!["https://a.org/".to_owned(), "http://localhost:1/".to_owned()]
    );
}

#[test]
fn a_bare_key_belongs_to_the_chosen_chain() {
    assert_eq!(
        candidate_texts(&options(&["abc_123"], Some("robinhood")), None),
        vec!["https://robinhood-mainnet.g.alchemy.com/v2/abc_123".to_owned()]
    );
    assert_eq!(
        bad_rpc(&options(&["abc"], None), None),
        "abc is not a URL; pass --chain to expand a bare Alchemy key"
    );
    assert_eq!(
        bad_rpc(&options(&["abc"], Some("nowhere")), None),
        "abc is not a URL; pass --chain to expand a bare Alchemy key"
    );
}

#[test]
fn the_environment_comes_before_public_endpoints() {
    assert_eq!(
        candidate_texts(&options(&[], Some("base")), Some(" https://env.org ")),
        vec!["https://env.org/".to_owned()]
    );
    assert_eq!(
        candidate_texts(&options(&[""], Some("base")), Some(" ")),
        vec![
            "https://mainnet.base.org/".to_owned(),
            "https://base-rpc.publicnode.com/".to_owned(),
            "https://mainnet-sequencer.base.org/".to_owned(),
        ]
    );
    assert_eq!(candidate_texts(&options(&[], Some("ethereum")), None).len(), 3);
    assert_eq!(candidate_texts(&options(&[], Some("robinhood")), None).len(), 2);
    match resolve_rpc_candidates(&options(&[], None), None) {
        Err(SnipeError::NoRpcEndpoints) => {}
        other => panic!("{other:?}"),
    }
}

#[test]
fn unsafe_endpoints_are_refused() {
    assert_eq!(
        bad_rpc(&options(&["https://ok.org", "http://a.org"], None), None),
        "http://a.org must use HTTPS, except for an HTTP loopback endpoint"
    );
    assert_eq!(bad_rpc(&options(&["://"], None), None), "://");
    assert_eq!(
        bad_rpc(&options(&[], None), Some("http://a.org")),
        "RPC_URL must use HTTPS, except for an HTTP loopback endpoint"
    );
    assert_eq!(bad_rpc(&options(&[], None), Some("nonsense")), "nonsense");
}

#[test]
fn probing_settles_the_chain() {
    let a = url("https://a.org");
    let s = url("https://sequencer.org");
    let b = url("https://b.org");
    let (chain_id, urls) = run_probe(
        vec![(s.clone(), Some(1)), (a.clone(), None), (b.clone(), Some(1))],
        None,
    )
    .unwrap();
    assert_eq!(chain_id, 1);
    assert_eq!(urls, vec![b.clone(), s.clone()]);

    let (chain_id, urls) =
        run_probe(vec![(a.clone(), Some(1)), (b.clone(), Some(8453))], Some(8453)).unwrap();
    assert_eq!(chain_id, 8453);
    assert_eq!(urls, vec![b.clone()]);

    match run_probe(vec![(a.clone(), None), (b.clone(), None)], None) {
        Err(SnipeError::NoWorkingRpc { count }) => assert_eq!(count, 2),
        other => panic!("{other:?}"),
    }
    match run_probe(vec![(a.clone(), Some(1))], Some(8453)) {
        Err(SnipeError::NoEndpointForChain { chain, chain_id }) => {
            assert_eq!(chain, "base");
            assert_eq!(chain_id, 8453);
        }
        other => panic!("{other:?}"),
    }
    match run_probe(vec![(a, Some(1)), (b, Some(1)), (s, Some(2))], None) {
        Err(SnipeError::ChainMismatch { first, second }) => assert_eq!((first, second), (1, 2)),
        other => panic!("{other:?}"),
    }
}

#[test]
fn a_silent_sequencer_is_kept_for_sending() {
    let a = url("https://a.org");
    let b = url("https://b.org");
    let s = url("https://mainnet-sequencer.base.org");
    let t = url("https://sequencer.mainnet.chain.robinhood.com");
    let (chain_id, urls) = run_probe(
        vec![(s.clone(), None), (t.clone(), Some(8453)), (b, None), (a.clone(), Some(8453))],
        Some(8453),
    )
    .unwrap();
    assert_eq!(chain_id, 8453);
    assert_eq!(urls, vec![a.clone(), t.clone(), s.clone()]);
    match run_probe(vec![(s.clone(), None), (t, None)], Some(8453)) {
        Err(SnipeError::NoWorkingRpc { count }) => assert_eq!(count, 2),
        other => panic!("{other:?}"),
    }
    match run_probe(vec![(s, None), (a, Some(1))], Some(8453)) {
        Err(SnipeError::NoEndpointForChain { chain_id, .. }) => assert_eq!(chain_id, 8453),
        other => panic!("{other:?}"),
    }
}

#[test]
fn wallets_come_from_keys_and_the_file() {
    let mut options = SnipeOptions::default();
    options.key_count = 1;
    let wallets = load_wallets(&options, None, Some(Ok(vec![4, 5, 6]))).unwrap();
    assert_eq!(
        wallets,
        vec![
            WalletChoice { source: WalletSource::Key(0), quantity: 1 },
            WalletChoice { source: WalletSource::Manifest(0), quantity: 4 },
            WalletChoice { source: WalletSource::Manifest(1), quantity: 5 },
            WalletChoice { source: WalletSource::Manifest(2), quantity: 6 },
        ]
    );
    options.key_count = 0;
    options.quantity = Some(9);
    options.wallet_indices = Some(vec![2, 0]);
    let wallets = load_wallets(&options, None, Some(Ok(vec![4, 5, 6]))).unwrap();
    assert_eq!(
        wallets,
        vec![
            WalletChoice { source: WalletSource::Manifest(0), quantity: 9 },
            WalletChoice { source: WalletSource::Manifest(2), quantity: 9 },
        ]
    );
    options.wallet_indices = Some(vec![]);
    assert_eq!(load_wallets(&options, None, Some(Ok(vec![4, 5]))).unwrap().len(), 2);
}

#[test]
fn wallets_may_be_missing() {
    let options = SnipeOptions::default();
    match load_wallets(&options, None, None) {
        Err(SnipeError::NoWallets) => {}
        other => panic!("{other:?}"),
    }
    match load_wallets(&options, Some("bad key".to_owned()), Some(Err("x".to_owned()))) {
        Err(SnipeError::Wallet(told)) => assert_eq!(told, "bad key"),
        other => panic!("{other:?}"),
    }
    match load_wallets(&options, None, Some(Err("x".to_owned()))) {
        Err(SnipeError::Manifest(told)) => assert_eq!(told, "x"),
        other => panic!("{other:?}"),
    }
}

fn settled(step: FeeStep) -> (U256, U256) {
    match step {
        FeeStep::Settled(fees) => (fees.max_fee_per_gas, fees.max_priority_fee_per_gas),
        other => panic!("{other:?}"),
    }
}

#[test]
fn explicit_fees_win() {
    let estimate =
        FeeEstimate { max_fee_per_gas: wei(7), max_priority_fee_per_gas: wei(3) };
    assert_eq!(settled(start_fees(Some(wei(1)), Some(wei(2)))), (wei(1), wei(2)));
    assert!(matches!(start_fees(Some(wei(1)), None), FeeStep::AskEstimate));
    assert!(matches!(start_fees(None, Some(wei(1))), FeeStep::AskBaseFee));
    assert!(matches!(start_fees(None, None), FeeStep::AskEstimate));
    assert_eq!(settled(fees_from_estimate(Some(wei(1)), Some(estimate))), (wei(1), wei(3)));
    assert_eq!(settled(fees_from_estimate(Some(wei(1)), None)), (wei(1), wei(0)));
    assert_eq!(settled(fees_from_estimate(None, Some(estimate))), (wei(7), wei(3)));
    assert!(matches!(fees_from_estimate(None, None), FeeStep::AskBaseFee));
}

#[test]
fn the_base_fee_is_doubled() {
    let fees = fees_from_base(Some(wei(5)), Ok(Some(wei(100)))).unwrap();
    assert_eq!(fees.max_fee_per_gas, wei(205));
    assert_eq!(fees.max_priority_fee_per_gas, wei(5));
    let fees = fees_from_base(None, Ok(None)).unwrap();
    assert_eq!(fees.max_fee_per_gas, wei(0));
    let fees = fees_from_base(Some(wei(3)), Ok(Some(U256 { limbs: [u64::MAX; 4] }))).unwrap();
    assert_eq!(fees.max_fee_per_gas, wei(1));
    assert!(fees_from_base(None, Err(ChainError::Failed("x".to_owned()))).is_err());
}

#[test]
fn gas_is_never_less_than_a_transfer() {
    assert_eq!(effective_gas_limit(0), 21_000);
    assert_eq!(effective_gas_limit(20_999), 21_000);
    assert_eq!(effective_gas_limit(250_000), 250_000);
}

#[test]
fn funds_have_to_cover_value_and_gas() {
    let required = check_funds(address(), wei(1_021_000), wei(1_000_000), 21_000, wei(1)).unwrap();
    assert_eq!(required, wei(1_021_000));
    match check_funds(address(), wei(63_000_000_000_000), wei(0), 21_000, wei(4_000_000_000)) {
        Err(SnipeError::Underfunded { address: who, balance, required, affordable }) => {
            assert_eq!(who, address());
            assert_eq!(balance, wei(63_000_000_000_000));
            assert_eq!(required, wei(84_000_000_000_000));
            assert_eq!(affordable, "3.000");
        }
        other => panic!("{other:?}"),
    }
    let max = U256 { limbs: [u64::MAX; 4] };
    match check_funds(address(), max, wei(0), 21_000, max) {
        Err(SnipeError::InvalidGas(told)) => assert_eq!(told, "gas cost overflow"),
        other => panic!("{other:?}"),
    }
    match check_funds(address(), max, max, 21_000, wei(1)) {
        Err(SnipeError::InvalidGas(told)) => assert_eq!(told, "total cost overflow"),
        other => panic!("{other:?}"),
    }
}

#[test]
fn firing_follows_the_stage() {
    assert_eq!(stage_start_millis(1_785_542_400), 1_785_542_400_000);
    assert_eq!(stage_start_millis(u64::MAX), i64::MAX);
    assert_eq!(fire_time(100, 250), 99_750);
    assert_eq!(fire_time(0, u64::MAX), -i64::MAX);
    assert_eq!(since_stage(1_500, 1_000), 500);
    assert_eq!(since_stage(500, 1_000), 0);
}

#[test]
fn a_launch_waits_unless_told_otherwise() {
    assert_eq!(choose_launch(false, 0, 10, 9), Launch::AwaitStage);
    assert_eq!(choose_launch(false, 0, 10, 10), Launch::Immediately);
    assert_eq!(choose_launch(true, 0, 10, 9), Launch::Immediately);
    assert_eq!(choose_launch(true, 5, 10, 9), Launch::AwaitEarlyWindow);
    assert_eq!(choose_launch(true, 5, 10, 11), Launch::Immediately);
}

#[test]
fn the_wait_ends_exactly_on_time() {
    let at = 100_000;
    assert_eq!(
        wait_until_fire(WaitPhase::Begin, at, at),
        (WaitPhase::Spin, WaitAction::Fire { announced: false })
    );
    assert_eq!(
        wait_until_fire(WaitPhase::Begin, at, 40_500),
        (WaitPhase::Countdown, WaitAction::Announce { seconds: 59 })
    );
    assert_eq!(
        wait_until_fire(WaitPhase::Countdown, at, 89_999),
        (WaitPhase::Countdown, WaitAction::Tick { seconds: 10 })
    );
    assert_eq!(
        wait_until_fire(WaitPhase::Countdown, at, 90_000),
        (WaitPhase::Spin, WaitAction::Sleep { millis: 9_900 })
    );
    assert_eq!(
        wait_until_fire(WaitPhase::Countdown, at, 99_900),
        (WaitPhase::Spin, WaitAction::Spin)
    );
    assert_eq!(
        wait_until_fire(WaitPhase::Spin, at, 99_999),
        (WaitPhase::Spin, WaitAction::Spin)
    );
    assert_eq!(
        wait_until_fire(WaitPhase::Spin, at, 100_000),
        (WaitPhase::Spin, WaitAction::Fire { announced: true })
    );
}

#[test]
fn receipts_are_asked_for_less_and_less_often() {
    let mut delay = 250;
    let mut pauses = Vec::new();
    for _ in 0..5 {
        match wait_for_receipt(Ok(None), 59_999, delay) {
            ReceiptStep::Retry { pause_ms, next_delay_ms } => {
                pauses.push(pause_ms);
                delay = next_delay_ms;
            }
            other => panic!("{other:?}"),
        }
    }
    assert_eq!(pauses, vec![250, 500, 1_000, 2_000, 2_000]);
    assert!(matches!(wait_for_receipt(Ok(None), 60_000, 250), ReceiptStep::TimedOut));
    let limited = Err(ChainError::RateLimited("slow".to_owned()));
    assert!(matches!(wait_for_receipt(limited, 0, 250), ReceiptStep::Retry { .. }));
    let failed = Err(ChainError::Failed("down".to_owned()));
    assert!(matches!(wait_for_receipt(failed, 0, 250), ReceiptStep::Failed(_)));
    let receipt = TransactionReceipt { is_success: true, block_number: 1 };
    assert!(matches!(wait_for_receipt(Ok(Some(receipt)), 99_999, 1), ReceiptStep::Found(_)));
    assert_eq!(receipt_hash("0x12"), None);
    assert_eq!(receipt_hash(&"ab".repeat(32)).unwrap().bytes, [0xab; 32]);
}

#[test]
fn errors_are_told_in_words() {
    for (error, told) in [
        (SnipeError::InvalidCollection("x".to_owned()), "invalid collection locator: x"),
        (SnipeError::SlugLookup("x".to_owned()), "OpenSea slug lookup failed: x"),
        (SnipeError::InvalidRpc("x".to_owned()), "invalid RPC endpoint: x"),
        (
            SnipeError::NoRpcEndpoints,
            "no RPC endpoints configured; pass --rpc, set RPC_URL in .env, or choose --chain",
        ),
        (
            SnipeError::NoWorkingRpc { count: 12 },
            "no working RPC endpoint after probing 12 candidate(s)",
        ),
        (
            SnipeError::NoEndpointForChain { chain: "base".to_owned(), chain_id: 8453 },
            "no RPC endpoint on the selected chain (base, id 8453)",
        ),
        (SnipeError::NoWallets, "no wallet keys configured; pass --key or --wallets"),
        (SnipeError::InvalidQuantity("0".to_owned()), "invalid mint quantity: 0"),
        (
            SnipeError::NoPublicStage,
            "collection has no public stage on the SeaDrop singleton; allowlist/FCFS stages need `opensea-mint mint`",
        ),
        (
            SnipeError::Underfunded {
                address: address(),
                balance: wei(1),
                required: wei(20),
                affordable: "0.001".to_owned(),
            },
            "wallet 0xd8dA6BF26964aF9D7eEd9e03E53415D37aA96045 cannot cover mint value + gas: balance 1 wei, required 20 wei; highest affordable max fee ≈ 0.001 gwei",
        ),
        (SnipeError::InvalidGas("x".to_owned()), "invalid gas value: x"),
        (
            SnipeError::ChainMismatch { first: 1, second: 2 },
            "chain id mismatch: RPCs disagree (1 vs 2)",
        ),
        (SnipeError::Chain(ChainError::Failed("down".to_owned())), "down"),
        (SnipeError::Blast(BlastError::Client), "cannot construct the RPC HTTP client"),
        (
            SnipeError::Seadrop(SeadropError::MalformedPublicDrop),
            "SeaDrop returned malformed public-drop data",
        ),
        (SnipeError::Wallet("w".to_owned()), "w"),
        (SnipeError::Transaction("t".to_owned()), "t"),
        (SnipeError::Manifest("m".to_owned()), "m"),
    ] {
        assert_eq!(error.message(), told);
    }
}
