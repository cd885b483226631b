use alloy_sol_types::SolValue;
use seadrop_sniper::blast::SignedTransaction;
use seadrop_sniper::chain::{AccountState, ChainError, FeeEstimate};
use seadrop_sniper::hexdata::{Address, B256};
use seadrop_sniper::json::Json;
use seadrop_sniper::locate::SlugReply;
use seadrop_sniper::manifest::ManifestEntry;
use seadrop_sniper::rpc_url::Url;
use seadrop_sniper::run::{
    run_snipe, LoadingWallets, Located, Priced, Probing, Progress, ReadingDrop, Ready, Request,
    Signing, Trigger,
};
use seadrop_sniper::seadrop::{fee_recipients_call, public_drop_call, seadrop_address};
use seadrop_sniper::snipe::{SnipeError, SnipeOptions};
use seadrop_sniper::timing::WaitAction;
use seadrop_sniper::uint::U256;

const ADDRESS: &str = "0xd8da6bf26964af9d7eed9e03e53415d37aa96045";

fn wei(n: u128) -> U256 {
    U256::from(n)
}

fn request(change: impl Fn(&mut SnipeOptions)) -> Request {
    let mut options = SnipeOptions::default();
    options.collection = ADDRESS.to_owned();
    options.chain = Some("base".to_owned());
    options.wallets_file = Some("wallets.json".to_owned());
    change(&mut options);
    Request { options, env_rpc: None }
}

fn probing(request: Request) -> Probing {
    match run_snipe(request).unwrap() {
        Located::Known(probing) => probing,
        other => panic!("{other:?}"),
    }
}

fn reading(request: Request) -> ReadingDrop {
    let probing = probing(request);
    let probes = vec![
        (Url::parse("https://mainnet-sequencer.base.org").unwrap(), Some(8453)),
        (Url::parse("https://mainnet.base.org").unwrap(), Some(8453)),
        (Url::parse("https://base-rpc.publicnode.com").unwrap(), None),
    ];
    probing.answered(probes).unwrap()
}

fn drop_words(price: u8, start: u16, restricted: u8) -> Vec<u8> {
    let mut words = vec![0; 192];
    words[31] = price;
    words[62] = (start >> 8) as u8;
    words[63] = (start & 0xff) as u8;
    words[127] = 5;
    words[191] = restricted;
    words
}

fn recipients(list: &[[u8; 20]]) -> Vec<u8> {
    list.iter().map(|a| alloy_primitives::Address::from(*a)).collect::<Vec<_>>().abi_encode()
}

fn loading(request: Request) -> LoadingWallets {
    reading(request)
        .answered(Ok(drop_words(100, 1_000, 1)))
        .unwrap()
        .answered(Ok(recipients(&[[3; 20]])))
        .unwrap()
}

fn entries() -> Option<Result<Vec<ManifestEntry>, String>> {
    Some(Ok(vec![
        ManifestEntry { address: Address { bytes: [1; 20] }, quantity: 2 },
        ManifestEntry { address: Address { bytes: [2; 20] }, quantity: 1 },
    ]))
}

fn signing(request: Request) -> Signing {
    match loading(request).loaded(Ok(vec![]), entries()).unwrap() {
        Priced::Settled(signing) => signing,
        other => panic!("{other:?}"),
    }
}

fn priced(options: &mut SnipeOptions) {
    options.max_fee_per_gas = Some(wei(10));
    options.max_priority_fee_per_gas = Some(wei(1));
}

fn ready(request: Request) -> Ready {
    let mut signing = signing(request);
    let mut byte = 0;
    while let Some((index, address)) = signing.next() {
        byte += 1;
        assert_eq!(index + 1, byte as usize);
        assert_eq!(address, Address { bytes: [byte; 20] });
        let account = AccountState { balance: wei(10_000_000), pending_nonce: 7 };
        let transaction = signing.account_read(Ok(account)).unwrap();
        assert_eq!(transaction.nonce, 7);
        let hash = B256 { bytes: [byte; 32] };
        signing.signed(Ok(SignedTransaction { hash, raw: vec![byte] })).unwrap();
    }
    signing.ready()
}

#[test]
fn a_known_contract_goes_straight_to_the_endpoints() {
    let probing = probing(request(|_| ()));
    assert_eq!(probing.nft, Address::parse(ADDRESS).unwrap());
    assert_eq!(probing.urls.len(), 3);
}

#[test]
fn a_name_is_looked_up_first() {
    let looking = match run_snipe(request(|o| o.collection = " my-drop ".to_owned())).unwrap() {
        Located::Unknown(looking) => looking,
        other => panic!("{other:?}"),
    };
    assert_eq!(looking.slug, "my-drop");
    assert_eq!(looking.url, "https://api.opensea.io/api/v2/collections/my-drop");
    let body = Json::Object(vec![(
        "contracts".to_owned(),
        Json::Array(vec![Json::Object(vec![(
            "address".to_owned(),
            Json::Text(ADDRESS.to_owned()),
        )])]),
    )]);
    let reply =
        SlugReply::Answer { status: 200, status_text: "200 OK".to_owned(), body: Ok(body) };
    let probing = looking.answered(reply).unwrap();
    assert_eq!(probing.nft, Address::parse(ADDRESS).unwrap());
}

#[test]
fn a_bad_collection_fails_before_bad_endpoints() {
    let bad = request(|o| {
        o.collection = "0x12".to_owned();
        o.rpc_urls = vec!["http://a.org".to_owned()];
    });
    assert!(matches!(run_snipe(bad), Err(SnipeError::InvalidCollection(_))));
    let bad = request(|o| o.rpc_urls = vec!["http://a.org".to_owned()]);
    assert!(matches!(run_snipe(bad), Err(SnipeError::InvalidRpc(_))));
}

#[test]
fn reads_follow_the_probe() {
    let reading = reading(request(|_| ()));
    assert_eq!(reading.site.chain_id, 8453);
    assert_eq!(reading.site.urls[0].text, "https://mainnet.base.org/");
    assert_eq!(reading.site.urls[1].text, "https://mainnet-sequencer.base.org/");
    assert_eq!(reading.call, public_drop_call(reading.site.nft));
    let next = reading.answered(Ok(drop_words(100, 1_000, 1))).unwrap();
    assert_eq!(next.drop.start_time, 1_000);
    assert_eq!(next.call, fee_recipients_call(next.site.nft));
    let next = next.answered(Ok(recipients(&[[3; 20]]))).unwrap();
    assert_eq!(next.base.fee_recipient, Address { bytes: [3; 20] });
    assert_eq!(next.base.to, seadrop_address());
    assert_eq!(next.base.value, wei(100));
}

#[test]
fn without_a_stage_nothing_goes_on() {
    let none = reading(request(|_| ())).answered(Ok(vec![0; 192]));
    assert!(matches!(none, Err(SnipeError::NoPublicStage)));
    let failed = reading(request(|_| ())).answered(Err(ChainError::Failed("x".to_owned())));
    assert!(matches!(failed, Err(SnipeError::Seadrop(_))));
    let next = reading(request(|_| ())).answered(Ok(drop_words(1, 1, 1))).unwrap();
    assert!(matches!(next.answered(Ok(recipients(&[]))), Err(SnipeError::NoPublicStage)));
    let next = reading(request(|_| ())).answered(Ok(drop_words(1, 1, 0))).unwrap();
    assert!(next.answered(Ok(recipients(&[]))).is_ok());
    let next = reading(request(|_| ())).answered(Ok(drop_words(1, 1, 0))).unwrap();
    assert!(matches!(next.answered(Ok(vec![])), Err(SnipeError::Seadrop(_))));
}

#[test]
fn every_wallet_gets_its_plan() {
    let signing = signing(request(priced));
    assert_eq!(signing.arming.gas_limit, 250_000);
    assert_eq!(signing.arming.chain_id, 8453);
    assert_eq!(signing.start_time, 1_000);
    assert_eq!(signing.arming.wallets.len(), 2);
    assert_eq!(signing.arming.wallets[0].plan.value, wei(200));
    assert_eq!(signing.arming.wallets[1].plan.value, wei(100));
    assert_eq!(signing.next(), Some((0, Address { bytes: [1; 20] })));
}

#[test]
fn keys_come_before_the_file() {
    let request = request(|o| {
        priced(o);
        o.key_count = 1;
        o.wallet_indices = Some(vec![1]);
    });
    let signing = match loading(request)
        .loaded(Ok(vec![Address { bytes: [9; 20] }]), entries())
        .unwrap()
    {
        Priced::Settled(signing) => signing,
        other => panic!("{other:?}"),
    };
    let addresses: Vec<Address> = signing.arming.wallets.iter().map(|w| w.address).collect();
    assert_eq!(addresses, vec![Address { bytes: [9; 20] }, Address { bytes: [2; 20] }]);
}

#[test]
fn wallets_that_cannot_be_loaded_end_the_snipe() {
    let none = loading(request(|_| ())).loaded(Ok(vec![]), None);
    assert!(matches!(none, Err(SnipeError::NoWallets)));
    let bad = loading(request(|_| ())).loaded(Err("key".to_owned()), entries());
    assert!(matches!(bad, Err(SnipeError::Wallet(_))));
    let bad = loading(request(|_| ())).loaded(Ok(vec![]), Some(Err("file".to_owned())));
    assert!(matches!(bad, Err(SnipeError::Manifest(_))));
}

#[test]
fn fees_are_asked_for_only_where_needed() {
    let pricing = match loading(request(|_| ())).loaded(Ok(vec![]), entries()).unwrap() {
        Priced::NeedsEstimate(pricing) => pricing,
        other => panic!("{other:?}"),
    };
    let pricing = match pricing.estimated(None) {
        Priced::NeedsBaseFee(pricing) => pricing,
        other => panic!("{other:?}"),
    };
    let signing = pricing.based(Ok(Some(wei(50)))).unwrap();
    assert_eq!(signing.arming.fees.max_fee_per_gas, wei(100));
    assert_eq!(signing.arming.fees.max_priority_fee_per_gas, wei(0));

    let request = request(|o| o.max_fee_per_gas = Some(wei(9)));
    let pricing = match loading(request).loaded(Ok(vec![]), entries()).unwrap() {
        Priced::NeedsEstimate(pricing) => pricing,
        other => panic!("{other:?}"),
    };
    let estimate = FeeEstimate { max_fee_per_gas: wei(70), max_priority_fee_per_gas: wei(3) };
    match pricing.estimated(Some(estimate)) {
        Priced::Settled(signing) => {
            assert_eq!(signing.arming.fees.max_fee_per_gas, wei(9));
            assert_eq!(signing.arming.fees.max_priority_fee_per_gas, wei(3));
        }
        other => panic!("{other:?}"),
    }
}

#[test]
fn a_poor_wallet_or_a_failed_signature_ends_the_snipe() {
    let mut signing = signing(request(priced));
    let poor = AccountState { balance: wei(2_500_199), pending_nonce: 0 };
    assert!(matches!(
        signing.account_read(Ok(poor)),
        Err(SnipeError::Underfunded { .. })
    ));
    let enough = AccountState { balance: wei(2_500_200), pending_nonce: 0 };
    assert!(signing.account_read(Ok(enough)).is_ok());
    let failed = Err(ChainError::Failed("x".to_owned()));
    assert!(matches!(signing.account_read(failed), Err(SnipeError::Chain(_))));
    let refused = signing.signed(Err("no".to_owned()));
    assert!(matches!(refused, Err(SnipeError::Transaction(_))));
    assert_eq!(signing.next(), Some((0, Address { bytes: [1; 20] })));
}

#[test]
fn everything_waits_for_the_moment() {
    let ready = ready(request(|o| {
        priced(o);
        o.early_fire_ms = 500;
    }));
    assert_eq!(ready.fire_time, 999_500);
    assert_eq!(ready.warm().len(), 2);
    let progress = match ready.look(Progress::Launching, 900_000) {
        Trigger::Hold { progress, step } => {
            assert_eq!(step, None);
            progress
        }
        other => panic!("{other:?}"),
    };
    let progress = match ready.look(progress, 900_000) {
        Trigger::Hold { progress, step } => {
            assert_eq!(step, Some(WaitAction::Announce { seconds: 99 }));
            progress
        }
        other => panic!("{other:?}"),
    };
    let progress = match ready.look(progress, 999_499) {
        Trigger::Hold { progress, step } => {
            assert_eq!(step, Some(WaitAction::Spin));
            progress
        }
        other => panic!("{other:?}"),
    };
    match ready.look(progress, 999_500) {
        Trigger::Dispatch { announced, blasts } => {
            assert!(announced);
            assert_eq!(blasts.len(), 2);
            assert_eq!(blasts[0].requests.len(), 2);
            assert_eq!(blasts[1].tx_hash, B256 { bytes: [2; 32] });
        }
        other => panic!("{other:?}"),
    }
}

#[test]
fn a_live_stage_or_an_order_fires_at_once() {
    let live = ready(request(priced));
    assert!(matches!(live.look(Progress::Launching, 1_000_000), Trigger::Dispatch { .. }));
    assert!(matches!(live.look(Progress::Launching, 999_999), Trigger::Hold { .. }));
    let ordered = ready(request(|o| {
        priced(o);
        o.fire_now = true;
    }));
    assert!(matches!(ordered.look(Progress::Launching, 5), Trigger::Dispatch { .. }));
}
