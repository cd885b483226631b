//! The public-mint plan of a `SeaDrop` collection, out of on-chain data alone.
//!
//! A public stage needs no signature: `mintPublic` takes the drop's own parameters, so a
//! transaction can be assembled and signed before the stage opens.

use alloy_sol_types::SolValue;
use vstd::prelude::*;
use vstd::utf8::encode_utf8;

use crate::chain::ChainError;
use crate::hexdata::{fixed_bytes, keccak256, keccak256_digest, Address, B256};
use crate::uint::{be_value, from_be_slice, modulus, times, U256};

verus! {

/// The canonical `SeaDrop` contract.
pub const SEADROP_ADDRESS: &'static str = "0x00005ea00ac477b1030ce78506496e8c2de24bf5";

/// The fee recipient of a drop that names none and restricts none.
pub const OPENSEA_FEE_RECIPIENT: &'static str = "0x0000a26b00c1f0df003000390027140000faa719";

/// Signature of the call that reads a public drop.
pub const GET_PUBLIC_DROP: &'static str = "getPublicDrop(address)";

/// Signature of the call that reads the fee recipients that a drop allows.
pub const GET_ALLOWED_FEE_RECIPIENTS: &'static str = "getAllowedFeeRecipients(address)";

/// Signature of the mint call.
pub const MINT_PUBLIC: &'static str = "mintPublic(address,address,address,uint256)";

/// Where the recipient came from, when the chain named it.
pub const SOURCE_ON_CHAIN: &'static str = "allowed fee recipient on-chain";

/// Where the recipient came from, when the chain named none.
pub const SOURCE_DEFAULT: &'static str = "OpenSea default (drop does not restrict)";

/// Why a drop could not be read.
#[derive(Debug)]
pub enum SeadropError {
    /// The read itself failed.
    Chain(ChainError),
    /// The public drop could not be decoded.
    MalformedPublicDrop,
    /// The list of fee recipients could not be decoded.
    MalformedFeeRecipients,
}

impl SeadropError {
    /// The text that tells what went wrong.
    pub open spec fn spec_message(self) -> Seq<char> {
        match self {
            SeadropError::Chain(error) => "SeaDrop on-chain read failed: "@ + error.spec_message(),
            SeadropError::MalformedPublicDrop => "SeaDrop returned malformed public-drop data"@,
            SeadropError::MalformedFeeRecipients => "SeaDrop returned malformed fee-recipient data"@,
        }
    }

    /// Tells what went wrong.
    pub fn message(&self) -> (text: String)
        ensures
            text@ == self.spec_message(),
    {
        match self {
            SeadropError::Chain(error) => {
                let mut text = "SeaDrop on-chain read failed: ".to_owned();
                text.append(error.message().as_str());
                text
            },
            SeadropError::MalformedPublicDrop => {
                "SeaDrop returned malformed public-drop data".to_owned()
            },
            SeadropError::MalformedFeeRecipients => {
                "SeaDrop returned malformed fee-recipient data".to_owned()
            },
        }
    }
}

/// The public drop of one collection.
#[derive(Clone, Copy, Debug, PartialEq, Eq)]
pub struct PublicDrop {
    /// The price of one token in wei.
    pub mint_price: U256,
    /// When the stage opens, in seconds since the epoch.
    pub start_time: u64,
    /// When the stage closes, in seconds since the epoch.
    pub end_time: u64,
    /// How many tokens one wallet may mint.
    pub max_total_mintable_by_wallet: u16,
    /// The fee in hundredths of a percent.
    pub fee_bps: u16,
    /// Is the fee recipient restricted to the allowed list?
    pub restrict_fee_recipients: bool,
}

/// Everything that one wallet signs and sends.
#[derive(Clone, Debug, PartialEq, Eq)]
pub struct LocalMintPlan {
    /// The `SeaDrop` contract.
    pub to: Address,
    /// The call's data.
    pub data: Vec<u8>,
    /// The price of the tokens in wei.
    pub value: U256,
    /// The drop that the plan was made for.
    pub drop: PublicDrop,
    /// Who gets the fee.
    pub fee_recipient: Address,
}

/// The bytes of the `SeaDrop` contract's address.
pub open spec fn seadrop_bytes() -> Seq<u8> {
    seq![
        0x00u8, 0x00, 0x5e, 0xa0, 0x0a, 0xc4, 0x77, 0xb1, 0x03, 0x0c,
        0xe7, 0x85, 0x06, 0x49, 0x6e, 0x8c, 0x2d, 0xe2, 0x4b, 0xf5,
    ]
}

/// The bytes of the default fee recipient.
pub open spec fn default_recipient_bytes() -> Seq<u8> {
    seq![
        0x00u8, 0x00, 0xa2, 0x6b, 0x00, 0xc1, 0xf0, 0xdf, 0x00, 0x30,
        0x00, 0x39, 0x00, 0x27, 0x14, 0x00, 0x00, 0xfa, 0xa7, 0x19,
    ]
}

/// The address of the `SeaDrop` contract.
pub fn seadrop_address() -> (address: Address)
    ensures
        address@ == seadrop_bytes(),
{
    proof {
        reveal_strlit("0x00005ea00ac477b1030ce78506496e8c2de24bf5");
        assert(fixed_bytes(SEADROP_ADDRESS@, 20)->0 == seadrop_bytes());
    }
    Address::parse(SEADROP_ADDRESS).unwrap()
}

/// The default fee recipient.
pub fn opensea_fee_recipient() -> (address: Address)
    ensures
        address@ == default_recipient_bytes(),
{
    proof {
        reveal_strlit("0x0000a26b00c1f0df003000390027140000faa719");
        assert(fixed_bytes(OPENSEA_FEE_RECIPIENT@, 20)->0 == default_recipient_bytes());
    }
    Address::parse(OPENSEA_FEE_RECIPIENT).unwrap()
}

/// The first four bytes of the hash of a signature.
pub open spec fn selector_bytes(signature: Seq<char>) -> Seq<u8> {
    Seq::new(4, |i: int| keccak256_digest(encode_utf8(signature))[i])
}

/// A call: the selector, then the arguments.
pub open spec fn call_bytes(signature: Seq<char>, args: Seq<u8>) -> Seq<u8> {
    selector_bytes(signature) + args
}

/// The first four bytes of a hash.
pub fn hash_head(hash: &B256) -> (bytes: [u8; 4])
    ensures
        bytes@ == hash@.take(4),
{
    let bytes = [hash.bytes[0], hash.bytes[1], hash.bytes[2], hash.bytes[3]];
    assert(bytes@ == hash@.take(4));
    bytes
}

/// The selector of a function signature.
pub fn selector(signature: &str) -> (bytes: [u8; 4])
    ensures
        bytes@ == selector_bytes(signature@),
{
    let bytes = hash_head(&keccak256(signature.as_bytes()));
    assert(bytes@ == selector_bytes(signature@));
    bytes
}

/// Puts the selector in front of the arguments.
pub fn join_call(head: [u8; 4], args: &[u8]) -> (data: Vec<u8>)
    ensures
        data@ == head@ + args@,
{
    let mut data: Vec<u8> = Vec::new();
    data.push(head[0]);
    data.push(head[1]);
    data.push(head[2]);
    data.push(head[3]);
    assert(data@ == head@);
    data.extend_from_slice(args);
    data
}

/// Puts a call together.
pub fn encode_call(signature: &str, args: &[u8]) -> (data: Vec<u8>)
    ensures
        data@ == call_bytes(signature@, args@),
{
    join_call(selector(signature), args)
}

/// `n` in `len` bytes, most significant first; what does not fit is left out.
pub open spec fn be_bytes(n: nat, len: nat) -> Seq<u8>
    decreases len,
{
    if len == 0 {
        Seq::empty()
    } else {
        be_bytes(n / 256, (len - 1) as nat).push((n % 256) as u8)
    }
}

/// An address in a word of 32 bytes: twelve zeros, then the address.
pub open spec fn address_word(address: Seq<u8>) -> Seq<u8> {
    Seq::new(12, |i: int| 0u8) + address
}

/// The arguments of the mint call: four words.
pub open spec fn mint_args(nft: Seq<u8>, fee: Seq<u8>, minter: Seq<u8>, quantity: nat) -> Seq<u8> {
    address_word(nft) + address_word(fee) + address_word(minter) + be_bytes(quantity, 32)
}

/// The zero address, which credits the caller.
pub open spec fn zero_address() -> Seq<u8> {
    Seq::new(20, |i: int| 0u8)
}

/// The data of a mint call.
pub open spec fn mint_data(nft: Seq<u8>, fee: Seq<u8>, quantity: nat) -> Seq<u8> {
    call_bytes(MINT_PUBLIC@, mint_args(nft, fee, zero_address(), quantity))
}

/// Calls `SolValue::abi_encode` on `(Address, Address, Address, U256)`: a word for each.
#[verifier::external_body]
fn abi_encode_mint(nft: Address, fee: Address, minter: Address, quantity: U256) -> (args: Vec<u8>)
    ensures
        args@ == mint_args(nft@, fee@, minter@, quantity@),
{
    (
        alloy_primitives::Address::from(nft.bytes),
        alloy_primitives::Address::from(fee.bytes),
        alloy_primitives::Address::from(minter.bytes),
        alloy_primitives::U256::from_limbs(quantity.limbs),
    ).abi_encode()
}

/// Calls `SolValue::abi_encode` on an `Address`: one word.
#[verifier::external_body]
fn abi_encode_address(address: Address) -> (args: Vec<u8>)
    ensures
        args@ == address_word(address@),
{
    alloy_primitives::Address::from(address.bytes).abi_encode()
}

/// The addresses of an encoded list. The first word tells where the list stands; there, a word
/// tells how many entries follow, and an entry is the last twenty bytes of its word. There is no
/// list where the place or an entry lies outside the data, or where the entries would take more
/// than a gibibyte.
pub open spec fn listed_addresses(data: Seq<u8>) -> Option<Seq<Seq<u8>>> {
    let list = data.skip(be_value(data.take(32)) as int);
    let count = be_value(list.take(32));
    if data.len() < 32 || be_value(data.take(32)) > data.len() || list.len() < 32 || 32 + 32 * count
        > list.len() || 32 * count > 0x4000_0000 {
        None
    } else {
        Some(Seq::new(count, |i: int| list.subrange(32 + 32 * i + 12, 32 + 32 * i + 32)))
    }
}

/// The contents of a list of addresses.
pub open spec fn address_bytes(list: Seq<Address>) -> Seq<Seq<u8>> {
    Seq::new(list.len(), |i: int| list[i]@)
}

/// Calls `Vec::<Address>::abi_decode`: the list that the data holds. What follows the list, and
/// the twelve bytes before an entry, do not matter. Memory for the list is taken to be there.
#[verifier::external_body]
fn abi_decode_addresses(data: &[u8]) -> (list: Option<Vec<Address>>)
    ensures
        list matches Some(v) ==> listed_addresses(data@) == Some(address_bytes(v@)),
        list is None <==> listed_addresses(data@) is None,
{
    Vec::<alloy_primitives::Address>::abi_decode(data)
        .ok()
        .map(|list| list.into_iter().map(|a| Address { bytes: a.into_array() }).collect())
}

/// The data of `mintPublic(nft_contract, fee_recipient, 0, quantity)`. The zero minter credits the
/// caller, so that the data does not depend on the wallet.
pub fn encode_mint_public(nft_contract: Address, fee_recipient: Address, quantity: u64) -> (data:
    Vec<u8>)
    ensures
        data@ == mint_data(nft_contract@, fee_recipient@, quantity as nat),
        data@.len() == 132,
        data@.subrange(16, 36) == nft_contract@,
        data@.subrange(48, 68) == fee_recipient@,
        be_value(data@.subrange(100, 132)) == quantity,
{
    let zero = Address { bytes: [0;20] };
    proof {
        assert(zero@ == zero_address());
        law_mint_data_words(nft_contract@, fee_recipient@, quantity);
    }
    let args = abi_encode_mint(nft_contract, fee_recipient, zero, U256::new(quantity as u128));
    encode_call(MINT_PUBLIC, args.as_slice())
}

/// The call that reads the public drop of a collection.
pub fn public_drop_call(nft_contract: Address) -> (data: Vec<u8>)
    ensures
        data@ == call_bytes(GET_PUBLIC_DROP@, address_word(nft_contract@)),
{
    encode_call(GET_PUBLIC_DROP, abi_encode_address(nft_contract).as_slice())
}

/// The call that reads the fee recipients that a collection allows.
pub fn fee_recipients_call(nft_contract: Address) -> (data: Vec<u8>)
    ensures
        data@ == call_bytes(GET_ALLOWED_FEE_RECIPIENTS@, address_word(nft_contract@)),
{
    encode_call(GET_ALLOWED_FEE_RECIPIENTS, abi_encode_address(nft_contract).as_slice())
}

/// `256^k`: one more than the greatest number of `k` bytes.
pub open spec fn places(k: nat) -> nat
    decreases k,
{
    if k == 0 {
        1
    } else {
        256 * places((k - 1) as nat)
    }
}

/// A number of `k` bytes is less than `256^k`.
pub proof fn lemma_be_value_bound(bytes: Seq<u8>)
    ensures
        be_value(bytes) < places(bytes.len()),
    decreases bytes.len(),
{
    if bytes.len() > 0 {
        lemma_be_value_bound(bytes.drop_last());
    }
}

/// The number of two rows of bytes, one behind the other.
pub proof fn lemma_be_value_joins(head: Seq<u8>, tail: Seq<u8>)
    ensures
        be_value(head + tail) == be_value(head) * places(tail.len()) + be_value(tail),
    decreases tail.len(),
{
    if tail.len() == 0 {
        assert(head + tail == head);
        assert(places(tail.len()) == 1);
        assert(be_value(head) * 1 == be_value(head));
    } else {
        lemma_be_value_joins(head, tail.drop_last());
        assert((head + tail).drop_last() == head + tail.drop_last());
        let k = places((tail.len() - 1) as nat);
        let h = be_value(head);
        assert(h * (256 * k) == (h * k) * 256) by (nonlinear_arith);
        assert(places(tail.len()) == 256 * k);
        assert((head + tail).last() == tail.last());
    }
}

/// Bytes that denote a number less than `256^k` denote it by their last `k` alone.
pub proof fn lemma_be_value_tail(bytes: Seq<u8>, k: nat)
    requires
        k <= bytes.len(),
        be_value(bytes) < places(k),
    ensures
        be_value(bytes.skip(bytes.len() - k)) == be_value(bytes),
{
    let head = bytes.take(bytes.len() - k);
    let tail = bytes.skip(bytes.len() - k);
    assert(head + tail == bytes);
    lemma_be_value_joins(head, tail);
    let h = be_value(head);
    let p = places(k);
    assert(h == 0) by (nonlinear_arith)
        requires
            h * p < p,
            h >= 0,
    ;
    assert(0 * p == 0);
}

/// Reads up to eight bytes as a number, most significant first.
fn read_number(bytes: &[u8], from: usize, to: usize) -> (n: u64)
    requires
        from <= to <= bytes@.len(),
        to - from <= 8,
    ensures
        n == be_value(bytes@.subrange(from as int, to as int)),
{
    let mut n: u64 = 0;
    let mut i: usize = from;
    assert(be_value(bytes@.subrange(from as int, from as int)) == 0);
    while i < to
        invariant
            from <= i <= to <= bytes@.len(),
            to - from <= 8,
            n == be_value(bytes@.subrange(from as int, i as int)),
        decreases to - i,
    {
        let ghost next = bytes@.subrange(from as int, i + 1);
        proof {
            assert(next.drop_last() == bytes@.subrange(from as int, i as int));
            lemma_be_value_bound(next);
            reveal_with_fuel(places, 9);
        }
        n = n * 256 + bytes[i] as u64;
        i += 1;
    }
    n
}

/// The number in the `k`th word.
pub open spec fn word_value(words: Seq<u8>, k: int) -> nat {
    be_value(words.subrange(32 * k, 32 * k + 32))
}

/// The number in the last `n` bytes of the `k`th word.
pub open spec fn word_tail(words: Seq<u8>, k: int, n: int) -> nat {
    be_value(words.subrange(32 * k + 32 - n, 32 * k + 32))
}

/// Is `drop` what the six words of a reply say? Each field stands right-aligned in its word.
pub open spec fn drop_of_words(words: Seq<u8>, drop: PublicDrop) -> bool {
    &&& drop.mint_price@ == word_value(words, 0)
    &&& drop.start_time == word_tail(words, 1, 8)
    &&& drop.end_time == word_tail(words, 2, 8)
    &&& drop.max_total_mintable_by_wallet == word_tail(words, 3, 2)
    &&& drop.fee_bps == word_tail(words, 4, 2)
    &&& drop.restrict_fee_recipients == (words[191] != 0)
}

/// Do the words of a reply hold a drop? A collection without one reads as zeros.
pub open spec fn holds_drop(words: Seq<u8>) -> bool {
    &&& words.len() >= 6 * 32
    &&& !(word_tail(words, 1, 8) == 0 && word_tail(words, 2, 8) == 0 && word_tail(words, 3, 2) == 0)
}

/// Decodes the reply to `public_drop_call`.
pub fn decode_public_drop(words: &[u8]) -> (drop: Option<PublicDrop>)
    ensures
        drop is Some <==> holds_drop(words@),
        drop matches Some(d) ==> drop_of_words(words@, d),
{
    if words.len() < 6 * 32 {
        return None;
    }
    proof {
        lemma_be_value_bound(words@.subrange(126, 128));
        lemma_be_value_bound(words@.subrange(158, 160));
        reveal_with_fuel(places, 3);
    }
    let drop = PublicDrop {
        mint_price: from_be_slice(&words[0..32]),
        start_time: read_number(words, 56, 64),
        end_time: read_number(words, 88, 96),
        max_total_mintable_by_wallet: read_number(words, 126, 128) as u16,
        fee_bps: read_number(words, 158, 160) as u16,
        restrict_fee_recipients: words[191] != 0,
    };
    if drop.start_time == 0 && drop.end_time == 0 && drop.max_total_mintable_by_wallet == 0 {
        return None;
    }
    Some(drop)
}

/// A reply whose words hold numbers of the declared widths (48 bits for the times, 16 for the
/// limits, one for the flag) is decoded to exactly those numbers.
pub proof fn law_drop_fields_are_words(words: Seq<u8>, drop: PublicDrop)
    requires
        words.len() >= 6 * 32,
        drop_of_words(words, drop),
        word_value(words, 1) < 0x1_0000_0000_0000,
        word_value(words, 2) < 0x1_0000_0000_0000,
        word_value(words, 3) < 0x1_0000,
        word_value(words, 4) < 0x1_0000,
        word_value(words, 5) < 2,
    ensures
        drop.mint_price@ == word_value(words, 0),
        drop.start_time == word_value(words, 1),
        drop.end_time == word_value(words, 2),
        drop.max_total_mintable_by_wallet == word_value(words, 3),
        drop.fee_bps == word_value(words, 4),
        drop.restrict_fee_recipients == (word_value(words, 5) == 1),
{
    reveal_with_fuel(places, 9);
    assert forall|k: int, n: nat| 1 <= k <= 5 && n <= 32 && #[trigger] word_value(words, k) < places(
        n,
    ) implies #[trigger] word_tail(words, k, n as int) == word_value(words, k) by {
        let word = words.subrange(32 * k, 32 * k + 32);
        lemma_be_value_tail(word, n);
        assert(word.skip(32 - n) == words.subrange(32 * k + 32 - n, 32 * k + 32));
    }
    assert(word_tail(words, 5, 1 as int) == word_value(words, 5)) by {
        assert(word_value(words, 5) < places(1nat));
    }
    let last = words.subrange(191, 192);
    assert(last.drop_last() == Seq::<u8>::empty());
    assert(be_value(last) == words[191] as nat) by {
        assert(be_value(last.drop_last()) == 0);
    }
    assert(word_value(words, 1) < places(8nat));
    assert(word_value(words, 2) < places(8nat));
    assert(word_value(words, 3) < places(2nat));
    assert(word_value(words, 4) < places(2nat));
}

/// Is `drop` what the chain's reply to `public_drop_call` comes to?
pub open spec fn is_drop_result(
    reply: Result<Vec<u8>, ChainError>,
    drop: Result<Option<PublicDrop>, SeadropError>,
) -> bool {
    &&& reply matches Err(error) ==> drop == Err::<Option<PublicDrop>, SeadropError>(
        SeadropError::Chain(error),
    )
    &&& reply matches Ok(words) ==> {
        &&& drop is Ok
        &&& drop->Ok_0 is Some <==> holds_drop(words@)
        &&& drop->Ok_0 matches Some(d) ==> drop_of_words(words@, d)
    }
}

/// Reads the public drop out of the chain's reply to `public_drop_call`. There is none where the
/// contract has no public drop: it is no `SeaDrop` collection, or it keeps its drop itself.
pub fn fetch_public_drop(reply: Result<Vec<u8>, ChainError>) -> (drop: Result<
    Option<PublicDrop>,
    SeadropError,
>)
    ensures
        is_drop_result(reply, drop),
{
    match reply {
        Ok(words) => Ok(decode_public_drop(words.as_slice())),
        Err(error) => Err(SeadropError::Chain(error)),
    }
}

/// Is this recipient, with that remark on where it came from, the one that was picked?
pub open spec fn picks(
    recipient: Option<(Address, &'static str)>,
    address: Seq<u8>,
    source: Seq<char>,
) -> bool {
    match recipient {
        Some((picked, remark)) => picked@ == address && remark@ == source,
        None => false,
    }
}

/// Is `recipient` what the chain's reply to `fee_recipients_call` comes to?
pub open spec fn is_recipient_result(
    reply: Result<Vec<u8>, ChainError>,
    restricted: bool,
    recipient: Result<Option<(Address, &'static str)>, SeadropError>,
) -> bool {
    &&& reply matches Err(error) ==> recipient == Err::<
        Option<(Address, &'static str)>,
        SeadropError,
    >(SeadropError::Chain(error))
    &&& reply matches Ok(data) ==> match listed_addresses(data@) {
        None => recipient == Err::<Option<(Address, &'static str)>, SeadropError>(
            SeadropError::MalformedFeeRecipients,
        ),
        Some(allowed) => {
            &&& recipient is Ok
            &&& allowed.len() > 0 ==> picks(recipient->Ok_0, allowed[0], SOURCE_ON_CHAIN@)
            &&& allowed.len() == 0 && restricted ==> recipient->Ok_0 is None
            &&& allowed.len() == 0 && !restricted ==> picks(
                recipient->Ok_0,
                default_recipient_bytes(),
                SOURCE_DEFAULT@,
            )
        },
    }
}

/// Picks the fee recipient out of the chain's reply to `fee_recipients_call`: the first allowed
/// one; where none is allowed, the default, unless the drop restricts them. A restricted drop
/// without an allowed recipient cannot be minted at all.
pub fn resolve_fee_recipient(reply: Result<Vec<u8>, ChainError>, restricted: bool) -> (recipient:
    Result<Option<(Address, &'static str)>, SeadropError>)
    ensures
        is_recipient_result(reply, restricted, recipient),
{
    let data = match reply {
        Ok(data) => data,
        Err(error) => {
            return Err(SeadropError::Chain(error));
        },
    };
    let allowed = match abi_decode_addresses(data.as_slice()) {
        Some(allowed) => allowed,
        None => {
            return Err(SeadropError::MalformedFeeRecipients);
        },
    };
    if allowed.len() > 0 {
        assert(address_bytes(allowed@)[0] == allowed@[0]@);
        return Ok(Some((allowed[0], SOURCE_ON_CHAIN)));
    }
    if restricted {
        return Ok(None);
    }
    Ok(Some((opensea_fee_recipient(), SOURCE_DEFAULT)))
}

/// Is `plan` the plan to mint `quantity` tokens of a drop?
pub open spec fn plan_of(
    nft: Seq<u8>,
    quantity: nat,
    drop: PublicDrop,
    fee_recipient: Address,
    plan: LocalMintPlan,
) -> bool {
    &&& plan.to@ == seadrop_bytes()
    &&& plan.data@ == mint_data(nft, fee_recipient@, quantity)
    &&& plan.value@ == (drop.mint_price@ * quantity) % modulus()
    &&& plan.drop == drop
    &&& plan.fee_recipient == fee_recipient
}

/// The plan to mint `quantity` tokens of a drop.
pub fn mint_plan(
    nft_contract: Address,
    quantity: u64,
    drop: PublicDrop,
    fee_recipient: Address,
) -> (plan: LocalMintPlan)
    ensures
        plan_of(nft_contract@, quantity as nat, drop, fee_recipient, plan),
{
    LocalMintPlan {
        to: seadrop_address(),
        data: encode_mint_public(nft_contract, fee_recipient, quantity),
        value: times(drop.mint_price, U256::new(quantity as u128)),
        drop,
        fee_recipient,
    }
}

/// Is `plan` what the two reads come to?
pub open spec fn is_plan_result(
    nft: Seq<u8>,
    quantity: u64,
    drop: Result<Option<PublicDrop>, SeadropError>,
    recipient: Result<Option<(Address, &'static str)>, SeadropError>,
    plan: Result<Option<LocalMintPlan>, SeadropError>,
) -> bool {
    match drop {
        Err(error) => plan == Err::<Option<LocalMintPlan>, SeadropError>(error),
        Ok(None) => plan == Ok::<Option<LocalMintPlan>, SeadropError>(None),
        Ok(Some(found)) => match recipient {
            Err(error) => plan == Err::<Option<LocalMintPlan>, SeadropError>(error),
            Ok(None) => plan == Ok::<Option<LocalMintPlan>, SeadropError>(None),
            Ok(Some((fee_recipient, _))) => {
                &&& plan is Ok
                &&& plan->Ok_0 is Some
                &&& plan_of(nft, quantity as nat, found, fee_recipient, plan->Ok_0->0)
            },
        },
    }
}

/// Builds the whole plan to mint `quantity` tokens out of what the two reads gave; there is none
/// where there is no public stage or no possible fee recipient. A failed first read decides, and
/// the second one does not matter where the first found no drop.
pub fn build_local_mint_plan(
    nft_contract: Address,
    quantity: u64,
    drop: Result<Option<PublicDrop>, SeadropError>,
    recipient: Result<Option<(Address, &'static str)>, SeadropError>,
) -> (plan: Result<Option<LocalMintPlan>, SeadropError>)
    ensures
        is_plan_result(nft_contract@, quantity, drop, recipient, plan),
{
    match drop {
        Err(error) => Err(error),
        Ok(None) => Ok(None),
        Ok(Some(found)) => match recipient {
            Err(error) => Err(error),
            Ok(None) => Ok(None),
            Ok(Some((fee_recipient, _))) => Ok(
                Some(mint_plan(nft_contract, quantity, found, fee_recipient)),
            ),
        },
    }
}

/// `n` in `len` bytes takes `len` bytes.
pub proof fn lemma_be_bytes_len(n: nat, len: nat)
    ensures
        be_bytes(n, len).len() == len,
    decreases len,
{
    if len > 0 {
        lemma_be_bytes_len(n / 256, (len - 1) as nat);
    }
}

/// Every mint call is a selector and four words long, whatever it mints.
pub proof fn law_mint_data_length(nft: Seq<u8>, fee: Seq<u8>, quantity: nat)
    requires
        nft.len() == 20,
        fee.len() == 20,
    ensures
        mint_data(nft, fee, quantity).len() == 4 + 4 * 32,
{
    lemma_be_bytes_len(quantity, 32);
}

/// Two plans for one drop and one quantity carry the same call and the same value, whoever signs.
pub proof fn law_plans_of_equal_quantity_agree(
    nft: Seq<u8>,
    quantity: nat,
    drop: PublicDrop,
    fee_recipient: Address,
    a: LocalMintPlan,
    b: LocalMintPlan,
)
    requires
        plan_of(nft, quantity, drop, fee_recipient, a),
        plan_of(nft, quantity, drop, fee_recipient, b),
    ensures
        a.to@ == b.to@,
        a.data@ == b.data@,
        a.value@ == b.value@,
{
}

/// A price of at most 192 bits times any quantity is the plan's value exactly. (Prices on chain
/// have 80 bits.)
pub proof fn law_value_is_price_times_quantity(
    nft: Seq<u8>,
    quantity: u64,
    drop: PublicDrop,
    fee_recipient: Address,
    plan: LocalMintPlan,
)
    requires
        plan_of(nft, quantity as nat, drop, fee_recipient, plan),
        drop.mint_price@ < 0x1_0000_0000_0000_0000_0000_0000_0000_0000_0000_0000_0000_0000,
    ensures
        plan.value@ == drop.mint_price@ * quantity,
{
    let price = drop.mint_price@;
    let n = quantity as nat;
    assert(price * n < modulus()) by (nonlinear_arith)
        requires
            price < 0x1_0000_0000_0000_0000_0000_0000_0000_0000_0000_0000_0000_0000nat,
            n < 0x1_0000_0000_0000_0000nat,
            modulus() == 0x1_0000_0000_0000_0000_0000_0000_0000_0000_0000_0000_0000_0000_0000_0000_0000_0000nat,
    ;
    vstd::arithmetic::div_mod::lemma_small_mod(price * n, modulus());
}

/// A number that fits in so many bytes is what the bytes denote.
pub proof fn lemma_be_bytes_value(n: nat, len: nat)
    requires
        n < places(len),
    ensures
        be_value(be_bytes(n, len)) == n,
    decreases len,
{
    if len > 0 {
        lemma_be_bytes_value(n / 256, (len - 1) as nat);
        let b = be_bytes(n, len);
        assert(b.drop_last() == be_bytes(n / 256, (len - 1) as nat));
    }
}

/// What the mint call says: the selector of `mintPublic`, and then, each in a word of its own, the
/// collection, the fee recipient, nobody, and the quantity.
pub proof fn law_mint_data_words(nft: Seq<u8>, fee: Seq<u8>, quantity: u64)
    requires
        nft.len() == 20,
        fee.len() == 20,
    ensures
        ({
            let data = mint_data(nft, fee, quantity as nat);
            let hash = keccak256_digest(
                encode_utf8("mintPublic(address,address,address,uint256)"@),
            );
            &&& data.len() == 132
            &&& forall|i: int| 0 <= i < 4 ==> #[trigger] data[i] == hash[i]
            &&& forall|i: int| 4 <= i < 16 ==> #[trigger] data[i] == 0
            &&& data.subrange(16, 36) == nft
            &&& forall|i: int| 36 <= i < 48 ==> #[trigger] data[i] == 0
            &&& data.subrange(48, 68) == fee
            &&& forall|i: int| 68 <= i < 100 ==> #[trigger] data[i] == 0
            &&& be_value(data.subrange(100, 132)) == quantity
        }),
{
    let data = mint_data(nft, fee, quantity as nat);
    let word = be_bytes(quantity as nat, 32);
    lemma_be_bytes_len(quantity as nat, 32);
    assert(0xffff_ffff_ffff_ffff < places(32)) by {
        reveal_with_fuel(places, 33);
    }
    lemma_be_bytes_value(quantity as nat, 32);
    assert(data.subrange(16, 36) == nft);
    assert(data.subrange(48, 68) == fee);
    assert(data.subrange(100, 132) == word);
}

/// Calls that mint something else differ: from the data of a mint call one can read what it mints.
pub proof fn law_mint_data_tells_all(
    nft: Seq<u8>,
    fee: Seq<u8>,
    quantity: u64,
    other_nft: Seq<u8>,
    other_fee: Seq<u8>,
    other_quantity: u64,
)
    requires
        nft.len() == 20,
        fee.len() == 20,
        other_nft.len() == 20,
        other_fee.len() == 20,
        mint_data(nft, fee, quantity as nat) == mint_data(
            other_nft,
            other_fee,
            other_quantity as nat,
        ),
    ensures
        nft == other_nft,
        fee == other_fee,
        quantity == other_quantity,
{
    law_mint_data_words(nft, fee, quantity);
    law_mint_data_words(other_nft, other_fee, other_quantity);
}

/// What the two reads ask for: the selector of the named function, and the collection in a word.
pub proof fn law_read_calls_name_the_collection(nft: Seq<u8>)
    requires
        nft.len() == 20,
    ensures
        ({
            let drop = call_bytes(GET_PUBLIC_DROP@, address_word(nft));
            let fees = call_bytes(GET_ALLOWED_FEE_RECIPIENTS@, address_word(nft));
            let drop_hash = keccak256_digest(encode_utf8("getPublicDrop(address)"@));
            let fees_hash = keccak256_digest(encode_utf8("getAllowedFeeRecipients(address)"@));
            &&& drop.len() == 36
            &&& fees.len() == 36
            &&& forall|i: int| 0 <= i < 4 ==> #[trigger] drop[i] == drop_hash[i]
            &&& forall|i: int| 0 <= i < 4 ==> #[trigger] fees[i] == fees_hash[i]
            &&& forall|i: int| 4 <= i < 16 ==> #[trigger] drop[i] == 0
            &&& forall|i: int| 4 <= i < 16 ==> #[trigger] fees[i] == 0
            &&& drop.skip(16) == nft
            &&& fees.skip(16) == nft
        }),
{
    assert(call_bytes(GET_PUBLIC_DROP@, address_word(nft)).skip(16) == nft);
    assert(call_bytes(GET_ALLOWED_FEE_RECIPIENTS@, address_word(nft)).skip(16) == nft);
}

/// The fixed addresses are the published ones.
pub proof fn law_fixed_addresses()
    ensures
        fixed_bytes("0x00005ea00ac477b1030ce78506496e8c2de24bf5"@, 20) == Some(seadrop_bytes()),
        fixed_bytes("0x0000a26b00c1f0df003000390027140000faa719"@, 20) == Some(
            default_recipient_bytes(),
        ),
{
    reveal_strlit("0x00005ea00ac477b1030ce78506496e8c2de24bf5");
    reveal_strlit("0x0000a26b00c1f0df003000390027140000faa719");
    assert(fixed_bytes("0x00005ea00ac477b1030ce78506496e8c2de24bf5"@, 20)->0 == seadrop_bytes());
    assert(fixed_bytes("0x0000a26b00c1f0df003000390027140000faa719"@, 20)->0
        == default_recipient_bytes());
}

/// A drop is read byte by byte: which bytes of the reply each field is, whatever they hold.
pub proof fn law_drop_fields_are_bytes(words: Seq<u8>, drop: PublicDrop)
    requires
        words.len() >= 192,
        drop_of_words(words, drop),
    ensures
        drop.mint_price@ == be_value(words.subrange(0, 32)),
        drop.start_time == be_value(words.subrange(56, 64)),
        drop.end_time == be_value(words.subrange(88, 96)),
        drop.max_total_mintable_by_wallet == be_value(words.subrange(126, 128)),
        drop.fee_bps == be_value(words.subrange(158, 160)),
        drop.restrict_fee_recipients <==> words[191] != 0,
{
}

/// A reply holds a drop exactly where it is six words long and not all of the two times and the
/// limit are zero.
pub proof fn law_drop_is_found(words: Seq<u8>)
    ensures
        words.len() < 192 ==> !holds_drop(words),
        words.len() >= 192 ==> (holds_drop(words) <==> be_value(words.subrange(56, 64)) > 0
            || be_value(words.subrange(88, 96)) > 0 || be_value(words.subrange(126, 128)) > 0),
{
}

/// A list that is encoded the usual way is read back: the place and the number of its entries, and
/// then one word for each.
pub proof fn law_encoded_list_is_read(data: Seq<u8>, list: Seq<Seq<u8>>)
    requires
        data.len() == 64 + 32 * list.len(),
        list.len() <= 0x100_0000,
        be_value(data.take(32)) == 32,
        be_value(data.subrange(32, 64)) == list.len(),
        forall|i: int|
            0 <= i < list.len() ==> #[trigger] list[i] == data.subrange(
                64 + 32 * i + 12,
                64 + 32 * i + 32,
            ),
    ensures
        listed_addresses(data) == Some(list),
{
    let body = data.skip(32);
    assert(body.take(32) == data.subrange(32, 64));
    assert forall|i: int| 0 <= i < list.len() implies body.subrange(
        32 + 32 * i + 12,
        32 + 32 * i + 32,
    ) == #[trigger] list[i] by {
        assert(body.subrange(32 + 32 * i + 12, 32 + 32 * i + 32) == data.subrange(
            64 + 32 * i + 12,
            64 + 32 * i + 32,
        ));
    }
    assert(listed_addresses(data)->0 == list);
}

/// A plan sends the price of its tokens to the published contract, with the call that mints them.
pub proof fn law_plan_mints(
    nft: Seq<u8>,
    quantity: u64,
    drop: PublicDrop,
    fee_recipient: Address,
    plan: LocalMintPlan,
)
    requires
        nft.len() == 20,
        plan_of(nft, quantity as nat, drop, fee_recipient, plan),
    ensures
        fixed_bytes("0x00005ea00ac477b1030ce78506496e8c2de24bf5"@, 20) == Some(plan.to@),
        plan.value@ == (drop.mint_price@ * (quantity as nat)) % modulus(),
        plan.data@.subrange(16, 36) == nft,
        plan.data@.subrange(48, 68) == fee_recipient@,
        be_value(plan.data@.subrange(100, 132)) == quantity,
        plan.drop == drop,
        plan.fee_recipient == fee_recipient,
{
    law_fixed_addresses();
    law_mint_data_words(nft, fee_recipient@, quantity);
}

/// Who gets the fee: the first of the recipients that the collection allows, whether or not it
/// restricts them; where it allows none, the published default, unless it restricts them.
pub proof fn law_fee_recipient(
    data: Vec<u8>,
    list: Seq<Seq<u8>>,
    restricted: bool,
    recipient: Result<Option<(Address, &'static str)>, SeadropError>,
)
    requires
        is_recipient_result(Ok(data), restricted, recipient),
        data@.len() == 64 + 32 * list.len(),
        list.len() <= 0x100_0000,
        be_value(data@.take(32)) == 32,
        be_value(data@.subrange(32, 64)) == list.len(),
        forall|i: int|
            0 <= i < list.len() ==> #[trigger] list[i] == data@.subrange(
                64 + 32 * i + 12,
                64 + 32 * i + 32,
            ),
    ensures
        list.len() > 0 ==> (recipient matches Ok(Some((address, _))) && address@ == list[0]),
        list.len() == 0 && !restricted ==> (recipient matches Ok(Some((address, _))) && Some(address@)
            == fixed_bytes("0x0000a26b00c1f0df003000390027140000faa719"@, 20)),
        list.len() == 0 && restricted ==> recipient == Ok::<
            Option<(Address, &'static str)>,
            SeadropError,
        >(None),
{
    law_encoded_list_is_read(data@, list);
    law_fixed_addresses();
}

/// From the two reads to the plan: the price and the times are those that the first read gave, the
/// value is the price for all tokens, and the call mints the quantity of the collection with the
/// recipient of the second read. Without a stage, or without a recipient, there is no plan; a failed
/// read fails the plan, the first one before the second.
pub proof fn law_plan_comes_from_the_reads(
    nft: Seq<u8>,
    quantity: u64,
    words: Vec<u8>,
    drop: Result<Option<PublicDrop>, SeadropError>,
    recipient: Result<Option<(Address, &'static str)>, SeadropError>,
    plan: Result<Option<LocalMintPlan>, SeadropError>,
)
    requires
        nft.len() == 20,
        words@.len() >= 192,
        is_drop_result(Ok(words), drop),
        is_plan_result(nft, quantity, drop, recipient, plan),
    ensures
        ({
            let open = be_value(words@.subrange(56, 64)) > 0 || be_value(words@.subrange(88, 96)) > 0
                || be_value(words@.subrange(126, 128)) > 0;
            let price = be_value(words@.subrange(0, 32));
            &&& !open ==> plan == Ok::<Option<LocalMintPlan>, SeadropError>(None)
            &&& open ==> (recipient matches Err(error) ==> plan == Err::<
                Option<LocalMintPlan>,
                SeadropError,
            >(error))
            &&& open ==> (recipient matches Ok(None) ==> plan == Ok::<
                Option<LocalMintPlan>,
                SeadropError,
            >(None))
            &&& open ==> (recipient matches Ok(Some((fee, _))) ==> (plan matches Ok(Some(made)) && {
                &&& made.value@ == (price * (quantity as nat)) % modulus()
                &&& made.drop.start_time == be_value(words@.subrange(56, 64))
                &&& made.data@.subrange(16, 36) == nft
                &&& made.data@.subrange(48, 68) == fee@
                &&& be_value(made.data@.subrange(100, 132)) == quantity
            }))
        }),
{
    law_drop_is_found(words@);
    if let Ok(Some(found)) = drop {
        law_drop_fields_are_bytes(words@, found);
        if let Ok(Some((fee, _))) = recipient {
            law_plan_mints(nft, quantity, found, fee, plan->Ok_0->0);
        }
    }
}

/// A read that failed is quoted, whichever it was.
pub proof fn law_failed_reads_are_quoted(
    error: ChainError,
    restricted: bool,
    drop: Result<Option<PublicDrop>, SeadropError>,
    recipient: Result<Option<(Address, &'static str)>, SeadropError>,
)
    requires
        is_drop_result(Err(error), drop),
        is_recipient_result(Err(error), restricted, recipient),
    ensures
        drop == Err::<Option<PublicDrop>, SeadropError>(SeadropError::Chain(error)),
        recipient == Err::<Option<(Address, &'static str)>, SeadropError>(
            SeadropError::Chain(error),
        ),
{
}

} // verus!
