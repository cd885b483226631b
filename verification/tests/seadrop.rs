use alloy_primitives::keccak256;
use alloy_sol_types::SolValue;
use seadrop_sniper::chain::ChainError;
use seadrop_sniper::hexdata::{same_hash, Address, B256};
use seadrop_sniper::seadrop::{
    build_local_mint_plan, decode_public_drop, encode_call, encode_mint_public, fee_recipients_call,
    fetch_public_drop, mint_plan, opensea_fee_recipient, public_drop_call, resolve_fee_recipient,
    seadrop_address, selector, PublicDrop, SeadropError, GET_PUBLIC_DROP, SOURCE_DEFAULT,
    SOURCE_ON_CHAIN,
};
use seadrop_sniper::uint::U256;

fn drop_payload(
    mint_price: u128,
    start_time: u64,
    end_time: u64,
    max_total: u16,
    fee_bps: u16,
    restrict: bool,
) -> Vec<u8> {
    let mut words = Vec::with_capacity(6 * 32);
    for (value, width) in [
        (mint_price, 80usize),
        (start_time as u128, 48),
        (end_time as u128, 48),
        (max_total as u128, 16),
        (fee_bps as u128, 16),
        (restrict as u128, 8),
    ] {
        let mut word = vec![0u8; 32];
        let value_bytes = value.to_be_bytes();
        let start = 32 - width / 8;
        word[start..].copy_from_slice(&value_bytes[value_bytes.len() - width / 8..]);
        words.extend_from_slice(&word);
    }
    words
}

fn some_drop() -> PublicDrop {
    decode_public_drop(&drop_payload(1_000, 1, 2, 3, 4, true)).unwrap()
}

#[test]
fn decodes_public_drop_tuple() {
    let payload = drop_payload(
        5_600_000_000_000_000,
        1_785_542_400,
        1_788_220_800,
        10,
        250,
        true,
    );
    let words: &[u8] = payload.as_ref();
    assert!(words.len() >= 6 * 32);
    let drop = decode_public_drop(words).unwrap();
    assert_eq!(drop.mint_price, U256::from(5_600_000_000_000_000u128));
    assert_eq!(drop.start_time, 1_785_542_400);
    assert_eq!(drop.end_time, 1_788_220_800);
    assert_eq!(drop.max_total_mintable_by_wallet, 10);
    assert_eq!(drop.fee_bps, 250);
    assert!(drop.restrict_fee_recipients);
}

#[test]
fn mint_public_calldata_matches_expected_shape() {
    let nft = Address::parse("0x0000000000000000000000000000000000000001").unwrap();
    let fee = Address::parse("0x0000000000000000000000000000000000000002").unwrap();
    let data = encode_mint_public(nft, fee, 1);

    let selector = &data[..4];
    let expected_selector =
        keccak256(b"mintPublic(address,address,address,uint256)")[..4].to_vec();
    assert_eq!(selector, expected_selector.as_slice());
    assert_eq!(data.len(), 4 + 4 * 32);
}

#[test]
fn selector_matches_keccak_prefix() {
    let expected: Vec<u8> = keccak256(b"getPublicDrop(address)")[..4].to_vec();
    assert_eq!(selector(GET_PUBLIC_DROP), expected.as_slice());
}

#[test]
fn mint_calldata_holds_its_four_words() {
    let nft = Address { bytes: [0x11; 20] };
    let fee = Address { bytes: [0x22; 20] };
    let data = encode_mint_public(nft, fee, 0x0102);
    assert_eq!(&data[..4], &[0x16, 0x1a, 0xc2, 0x1f]);
    assert_eq!(&data[4..16], &[0; 12]);
    assert_eq!(&data[16..36], &[0x11; 20]);
    assert_eq!(&data[48..68], &[0x22; 20]);
    assert_eq!(&data[68..100], &[0; 32]);
    assert_eq!(&data[100..130], &[0; 30]);
    assert_eq!(&data[130..], &[1, 2]);
}

#[test]
fn calls_are_a_selector_and_arguments() {
    let data = encode_call("transfer(address,uint256)", &[1, 2, 3]);
    assert_eq!(data, vec![0xa9, 0x05, 0x9c, 0xbb, 1, 2, 3]);
    let nft = Address { bytes: [7; 20] };
    let call = public_drop_call(nft);
    assert_eq!(call.len(), 36);
    assert_eq!(&call[..4], &keccak256(b"getPublicDrop(address)")[..4]);
    assert_eq!(&call[16..], &[7; 20]);
    let call = fee_recipients_call(nft);
    assert_eq!(&call[..4], &keccak256(b"getAllowedFeeRecipients(address)")[..4]);
    assert_eq!(&call[4..16], &[0; 12]);
}

#[test]
fn a_short_or_empty_reply_holds_no_drop() {
    assert!(decode_public_drop(&[]).is_none());
    assert!(decode_public_drop(&vec![1; 191]).is_none());
    assert!(decode_public_drop(&vec![0; 192]).is_none());
    assert!(decode_public_drop(&drop_payload(5, 0, 0, 0, 250, true)).is_none());
    assert!(decode_public_drop(&drop_payload(0, 0, 1, 0, 0, false)).is_some());
}

#[test]
fn a_failed_read_of_the_drop_is_told() {
    let error = fetch_public_drop(Err(ChainError::Failed("boom".to_owned()))).unwrap_err();
    assert_eq!(error.message(), "SeaDrop on-chain read failed: boom");
    assert!(fetch_public_drop(Ok(vec![0; 192])).unwrap().is_none());
    let drop = fetch_public_drop(Ok(drop_payload(1, 2, 3, 4, 5, false))).unwrap().unwrap();
    assert_eq!(drop.start_time, 2);
    assert!(!drop.restrict_fee_recipients);
}

fn encoded(addresses: &[[u8; 20]]) -> Vec<u8> {
    addresses
        .iter()
        .map(|a| alloy_primitives::Address::from(*a))
        .collect::<Vec<_>>()
        .abi_encode()
}

#[test]
fn the_first_allowed_recipient_is_taken() {
    let reply = encoded(&[[5; 20], [6; 20]]);
    let (address, source) = resolve_fee_recipient(Ok(reply), true).unwrap().unwrap();
    assert_eq!(address, Address { bytes: [5; 20] });
    assert_eq!(source, SOURCE_ON_CHAIN);
}

#[test]
fn an_empty_list_leaves_the_default_or_nothing() {
    assert!(resolve_fee_recipient(Ok(encoded(&[])), true).unwrap().is_none());
    let (address, source) = resolve_fee_recipient(Ok(encoded(&[])), false).unwrap().unwrap();
    assert_eq!(address, opensea_fee_recipient());
    assert_eq!(source, SOURCE_DEFAULT);
}

#[test]
fn malformed_recipients_are_an_error() {
    for reply in [vec![], vec![0; 31], vec![0xff; 64], {
        let mut short = encoded(&[[5; 20]]);
        short.pop();
        short
    }] {
        match resolve_fee_recipient(Ok(reply), false) {
            Err(SeadropError::MalformedFeeRecipients) => {}
            other => panic!("{other:?}"),
        }
    }
    match resolve_fee_recipient(Err(ChainError::RateLimited("slow".to_owned())), false) {
        Err(SeadropError::Chain(ChainError::RateLimited(text))) => assert_eq!(text, "slow"),
        other => panic!("{other:?}"),
    }
    assert_eq!(
        SeadropError::MalformedFeeRecipients.message(),
        "SeaDrop returned malformed fee-recipient data"
    );
    assert_eq!(
        SeadropError::MalformedPublicDrop.message(),
        "SeaDrop returned malformed public-drop data"
    );
}

#[test]
fn bytes_behind_the_list_do_not_matter() {
    let mut reply = encoded(&[[5; 20]]);
    reply.extend_from_slice(&[9; 7]);
    reply[64] = 0xff;
    let (address, _) = resolve_fee_recipient(Ok(reply), true).unwrap().unwrap();
    assert_eq!(address, Address { bytes: [5; 20] });
}

#[test]
fn a_plan_is_built_from_both_reads() {
    let nft = Address { bytes: [1; 20] };
    let fee = Address { bytes: [2; 20] };
    let plan = build_local_mint_plan(nft, 3, Ok(Some(some_drop())), Ok(Some((fee, SOURCE_ON_CHAIN))))
        .unwrap()
        .unwrap();
    assert_eq!(plan.to, seadrop_address());
    assert_eq!(plan.value, U256::from(3_000u128));
    assert_eq!(plan.data, encode_mint_public(nft, fee, 3));
    assert_eq!(plan.drop, some_drop());
    assert_eq!(plan.fee_recipient, fee);
    assert!(build_local_mint_plan(nft, 3, Ok(None), Ok(None)).unwrap().is_none());
    assert!(build_local_mint_plan(nft, 3, Ok(Some(some_drop())), Ok(None)).unwrap().is_none());
    assert!(build_local_mint_plan(nft, 3, Err(SeadropError::MalformedPublicDrop), Ok(None)).is_err());
    assert!(build_local_mint_plan(
        nft,
        3,
        Ok(Some(some_drop())),
        Err(SeadropError::MalformedFeeRecipients)
    )
    .is_err());
}

#[test]
fn equal_quantities_make_equal_plans() {
    let nft = Address { bytes: [1; 20] };
    let fee = Address { bytes: [2; 20] };
    assert_eq!(mint_plan(nft, 5, some_drop(), fee), mint_plan(nft, 5, some_drop(), fee));
    assert_ne!(mint_plan(nft, 5, some_drop(), fee), mint_plan(nft, 6, some_drop(), fee));
}

#[test]
fn an_enormous_price_wraps() {
    let mut words = vec![0u8; 192];
    words[0] = 0x80;
    words[63] = 1;
    let drop = decode_public_drop(&words).unwrap();
    let plan = mint_plan(Address { bytes: [0; 20] }, 2, drop, Address { bytes: [0; 20] });
    assert_eq!(plan.value, U256::from(0u128));
}

#[test]
fn static_addresses_are_the_known_ones() {
    assert_eq!(
        seadrop_address().to_text().to_lowercase(),
        "0x00005ea00ac477b1030ce78506496e8c2de24bf5"
    );
    assert_eq!(
        opensea_fee_recipient().to_text().to_lowercase(),
        "0x0000a26b00c1f0df003000390027140000faa719"
    );
}

#[test]
fn addresses_are_read_and_written() {
    let text = "0xd8dA6BF26964aF9D7eEd9e03E53415D37aA96045";
    let address = Address::parse(text).unwrap();
    assert_eq!(address.bytes[0], 0xd8);
    assert_eq!(address.bytes[19], 0x45);
    assert_eq!(address.to_text(), text);
    assert_eq!(Address::parse(&text.to_lowercase()), Some(address));
    assert_eq!(Address::parse(&text[2..]), Some(address));
    assert_eq!(Address::parse("0XD8DA6BF26964AF9D7EED9E03E53415D37AA96045"), Some(address));
    assert_eq!(Address::parse("0x"), None);
    assert_eq!(Address::parse(&text[..41]), None);
    assert_eq!(Address::parse("0xg8dA6BF26964aF9D7eEd9e03E53415D37aA96045"), None);
}

#[test]
fn hashes_are_read_and_written() {
    let mut bytes = [0u8; 32];
    bytes[0] = 0xAB;
    bytes[31] = 0x01;
    let hash = B256 { bytes };
    let text = "0xab00000000000000000000000000000000000000000000000000000000000001";
    assert_eq!(hash.to_text(), text);
    assert_eq!(B256::parse(text), Some(hash));
    assert_eq!(B256::parse(&text[2..]), Some(hash));
    assert_eq!(B256::parse("0xab"), None);
    assert!(same_hash(&hash, &B256::parse(text).unwrap()));
    assert!(!same_hash(&hash, &B256 { bytes: [0; 32] }));
}
