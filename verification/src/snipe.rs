//! What a snipe is asked to do, why it fails, and amounts in gwei.

use vstd::arithmetic::power::pow;
use vstd::prelude::*;
use vstd::utf8::{encode_utf8, is_ascii_chars_encode_utf8};

use crate::blast::BlastError;
use crate::chain::ChainError;
use crate::hexdata::{checksum_text, Address};
use crate::seadrop::SeadropError;
use crate::text::{
    all_digits, contents, cut, decimal, digit_char, digits_value, is_digit,
    law_cut_at_the_first, law_decimal_parses,
    lemma_decimal_reads_back, lemma_next_index, next_index, parse_u128, split_once, to_decimal,
    trim, trim_end, trim_start, trimmed, unsigned_value,
};
use crate::uint::{amount_text, divided, modulus, remainder, times, U256};

verus! {

/// Why a snipe failed.
#[derive(Debug)]
pub enum SnipeError {
    /// The collection is named by neither an address, a URL nor a slug.
    InvalidCollection(String),
    /// The marketplace did not tell the contract of a slug.
    SlugLookup(String),
    /// An endpoint may not be used.
    InvalidRpc(String),
    /// There is no endpoint to use.
    NoRpcEndpoints,
    /// No endpoint answered.
    NoWorkingRpc {
        /// How many were asked.
        count: usize,
    },
    /// No endpoint that answered serves the chosen chain.
    NoEndpointForChain {
        /// The name of the chain.
        chain: String,
        /// The number of the chain.
        chain_id: u64,
    },
    /// There is no wallet to mint with.
    NoWallets,
    /// The quantity cannot be minted.
    InvalidQuantity(String),
    /// The collection has no public stage.
    NoPublicStage,
    /// A wallet holds too little.
    Underfunded {
        /// The wallet.
        address: Address,
        /// What it holds.
        balance: U256,
        /// What it would take.
        required: U256,
        /// The greatest fee that it could pay, in gwei.
        affordable: String,
    },
    /// A gas price cannot be used.
    InvalidGas(String),
    /// Two endpoints serve different chains.
    ChainMismatch {
        /// The chain of the first endpoint.
        first: u64,
        /// The chain of the first endpoint that differs.
        second: u64,
    },
    /// A read failed.
    Chain(ChainError),
    /// Nothing could be dispatched.
    Blast(BlastError),
    /// The drop could not be read.
    Seadrop(SeadropError),
    /// A key could not be used.
    Wallet(String),
    /// A transaction could not be signed.
    Transaction(String),
    /// The wallets could not be loaded.
    Manifest(String),
}

/// What a snipe is asked to do.
#[derive(Debug)]
pub struct SnipeOptions {
    /// The collection: an address, a URL or a slug.
    pub collection: String,
    /// How many tokens each wallet mints; otherwise each wallet's own number.
    pub quantity: Option<u64>,
    /// How many private keys were given. The keys themselves stay with the caller.
    pub key_count: usize,
    /// A file with wallets.
    pub wallets_file: Option<String>,
    /// Which wallets of the file to use; all of them where it names none.
    pub wallet_indices: Option<Vec<usize>>,
    /// Endpoints, or bare Alchemy keys.
    pub rpc_urls: Vec<String>,
    /// The name of the chain.
    pub chain: Option<String>,
    /// The most to pay for a unit of gas.
    pub max_fee_per_gas: Option<U256>,
    /// The part of it that goes to the block's producer.
    pub max_priority_fee_per_gas: Option<U256>,
    /// How much gas a transaction may use.
    pub gas_limit: u64,
    /// How long before the stage opens to fire, in milliseconds.
    pub early_fire_ms: u64,
    /// Fire at once?
    pub fire_now: bool,
}

/// What a snipe is asked to do, as a value.
pub struct OptionsValue {
    /// The collection.
    pub collection: Seq<char>,
    /// How many tokens each wallet mints.
    pub quantity: Option<u64>,
    /// How many private keys were given.
    pub key_count: usize,
    /// A file with wallets.
    pub wallets_file: Option<Seq<char>>,
    /// Which wallets of the file to use.
    pub wallet_indices: Option<Seq<usize>>,
    /// Endpoints, or bare Alchemy keys.
    pub rpc_urls: Seq<Seq<char>>,
    /// The name of the chain.
    pub chain: Option<Seq<char>>,
    /// The most to pay for a unit of gas.
    pub max_fee: Option<nat>,
    /// The part of it that goes to the block's producer.
    pub priority_fee: Option<nat>,
    /// How much gas a transaction may use.
    pub gas_limit: u64,
    /// How early to fire, in milliseconds.
    pub early_fire_ms: u64,
    /// Fire at once?
    pub fire_now: bool,
}

/// An optional text as a value.
pub open spec fn text_value(text: Option<String>) -> Option<Seq<char>> {
    match text {
        Some(t) => Some(t@),
        None => None,
    }
}

/// An optional list of indices as a value.
pub open spec fn list_value(list: Option<Vec<usize>>) -> Option<Seq<usize>> {
    match list {
        Some(v) => Some(v@),
        None => None,
    }
}

/// An optional amount as a value.
pub open spec fn amount_value(amount: Option<U256>) -> Option<nat> {
    match amount {
        Some(a) => Some(a@),
        None => None,
    }
}

impl View for SnipeOptions {
    type V = OptionsValue;

    open spec fn view(&self) -> OptionsValue {
        OptionsValue {
            collection: self.collection@,
            quantity: self.quantity,
            key_count: self.key_count,
            wallets_file: text_value(self.wallets_file),
            wallet_indices: list_value(self.wallet_indices),
            rpc_urls: contents(self.rpc_urls@),
            chain: text_value(self.chain),
            max_fee: amount_value(self.max_fee_per_gas),
            priority_fee: amount_value(self.max_priority_fee_per_gas),
            gas_limit: self.gas_limit,
            early_fire_ms: self.early_fire_ms,
            fire_now: self.fire_now,
        }
    }
}

impl Default for SnipeOptions {
    fn default() -> (options: Self)
        ensures
            options.collection@ == ""@,
            options.quantity is None,
            options.key_count == 0,
            options.wallets_file is None,
            options.wallet_indices is None,
            options.rpc_urls@.len() == 0,
            options.chain is None,
            options.max_fee_per_gas is None,
            options.max_priority_fee_per_gas is None,
            options.gas_limit == 250_000,
            options.early_fire_ms == 0,
            !options.fire_now,
    {
        SnipeOptions {
            collection: "".to_owned(),
            quantity: None,
            key_count: 0,
            wallets_file: None,
            wallet_indices: None,
            rpc_urls: Vec::new(),
            chain: None,
            max_fee_per_gas: None,
            max_priority_fee_per_gas: None,
            gas_limit: 250_000,
            early_fire_ms: 0,
            fire_now: false,
        }
    }
}

impl SnipeError {
    /// The text that tells what went wrong.
    pub open spec fn spec_message(self) -> Seq<char> {
        match self {
            SnipeError::InvalidCollection(text) => "invalid collection locator: "@ + text@,
            SnipeError::SlugLookup(text) => "OpenSea slug lookup failed: "@ + text@,
            SnipeError::InvalidRpc(text) => "invalid RPC endpoint: "@ + text@,
            SnipeError::NoRpcEndpoints =>
                "no RPC endpoints configured; pass --rpc, set RPC_URL in .env, or choose --chain"@,
            SnipeError::NoWorkingRpc { count } => "no working RPC endpoint after probing "@
                + decimal(count as nat) + " candidate(s)"@,
            SnipeError::NoEndpointForChain { chain, chain_id } =>
                "no RPC endpoint on the selected chain ("@ + chain@ + ", id "@ + decimal(
                chain_id as nat,
            ) + ")"@,
            SnipeError::NoWallets => "no wallet keys configured; pass --key or --wallets"@,
            SnipeError::InvalidQuantity(text) => "invalid mint quantity: "@ + text@,
            SnipeError::NoPublicStage =>
                "collection has no public stage on the SeaDrop singleton; allowlist/FCFS stages need `opensea-mint mint`"@,
            SnipeError::Underfunded { address, balance, required, affordable } => "wallet "@
                + checksum_text(address@) + " cannot cover mint value + gas: balance "@ + decimal(
                balance@,
            ) + " wei, required "@ + decimal(required@) + " wei; highest affordable max fee ≈ "@
                + affordable@ + " gwei"@,
            SnipeError::InvalidGas(text) => "invalid gas value: "@ + text@,
            SnipeError::ChainMismatch { first, second } => "chain id mismatch: RPCs disagree ("@
                + decimal(first as nat) + " vs "@ + decimal(second as nat) + ")"@,
            SnipeError::Chain(error) => error.spec_message(),
            SnipeError::Blast(error) => "cannot construct the RPC HTTP client"@,
            SnipeError::Seadrop(error) => error.spec_message(),
            SnipeError::Wallet(text) => text@,
            SnipeError::Transaction(text) => text@,
            SnipeError::Manifest(text) => text@,
        }
    }

    /// Tells what went wrong.
    pub fn message(&self) -> (text: String)
        ensures
            text@ == self.spec_message(),
    {
        match self {
            SnipeError::InvalidCollection(text) => prefixed("invalid collection locator: ", text),
            SnipeError::SlugLookup(text) => prefixed("OpenSea slug lookup failed: ", text),
            SnipeError::InvalidRpc(text) => prefixed("invalid RPC endpoint: ", text),
            SnipeError::NoRpcEndpoints => {
                "no RPC endpoints configured; pass --rpc, set RPC_URL in .env, or choose --chain".to_owned()
            },
            SnipeError::NoWorkingRpc { count } => {
                let mut text = "no working RPC endpoint after probing ".to_owned();
                text.append(to_decimal(*count as u128).as_str());
                text.append(" candidate(s)");
                text
            },
            SnipeError::NoEndpointForChain { chain, chain_id } => {
                let mut text = "no RPC endpoint on the selected chain (".to_owned();
                text.append(chain.as_str());
                text.append(", id ");
                text.append(to_decimal(*chain_id as u128).as_str());
                text.append(")");
                text
            },
            SnipeError::NoWallets => "no wallet keys configured; pass --key or --wallets".to_owned(),
            SnipeError::InvalidQuantity(text) => prefixed("invalid mint quantity: ", text),
            SnipeError::NoPublicStage => {
                "collection has no public stage on the SeaDrop singleton; allowlist/FCFS stages need `opensea-mint mint`".to_owned()
            },
            SnipeError::Underfunded { address, balance, required, affordable } => {
                let mut text = "wallet ".to_owned();
                text.append(address.to_text().as_str());
                text.append(" cannot cover mint value + gas: balance ");
                text.append(amount_text(*balance).as_str());
                text.append(" wei, required ");
                text.append(amount_text(*required).as_str());
                text.append(" wei; highest affordable max fee ≈ ");
                text.append(affordable.as_str());
                text.append(" gwei");
                text
            },
            SnipeError::InvalidGas(text) => prefixed("invalid gas value: ", text),
            SnipeError::ChainMismatch { first, second } => {
                let mut text = "chain id mismatch: RPCs disagree (".to_owned();
                text.append(to_decimal(*first as u128).as_str());
                text.append(" vs ");
                text.append(to_decimal(*second as u128).as_str());
                text.append(")");
                text
            },
            SnipeError::Chain(error) => error.message(),
            SnipeError::Blast(error) => error.message(),
            SnipeError::Seadrop(error) => error.message(),
            SnipeError::Wallet(text) => text.clone(),
            SnipeError::Transaction(text) => text.clone(),
            SnipeError::Manifest(text) => text.clone(),
        }
    }
}

/// Puts a text behind another one.
pub(crate) fn prefixed(head: &str, tail: &str) -> (text: String)
    ensures
        text@ == head@ + tail@,
{
    let mut text = head.to_owned();
    text.append(tail);
    text
}

/// The wei in a gwei.
pub const GWEI: u128 = 1_000_000_000;

/// The text before the point and the text after it.
pub open spec fn gwei_parts(s: Seq<char>) -> (Seq<char>, Seq<char>) {
    match cut(trimmed(s), '.') {
        Some(parts) => parts,
        None => (trimmed(s), Seq::empty()),
    }
}

/// A fraction brought to nine places.
pub open spec fn nine_places(fraction: Seq<char>) -> Seq<char> {
    fraction + Seq::new((9 - encode_utf8(fraction).len()) as nat, |i: int| '0')
}

/// What a text in gwei amounts to in wei; otherwise the text that the error carries.
///
/// Either side of the point may be missing, but not both. Each side is a number as `unsigned_value`
/// reads it, the right one with at most nine places, and the amount has at most 128 bits.
pub open spec fn gwei_value(s: Seq<char>) -> Result<nat, Seq<char>> {
    let (whole, fraction) = gwei_parts(s);
    let whole_value = if whole.len() == 0 {
        Some(0nat)
    } else {
        unsigned_value(whole, u128::MAX as nat)
    };
    let fraction_value = unsigned_value(nine_places(fraction), u128::MAX as nat);
    if whole.len() == 0 && fraction.len() == 0 {
        Err(s)
    } else if whole_value is None {
        Err(s)
    } else if encode_utf8(fraction).len() > 9 {
        Err("more than 9 decimal places (gwei precision)"@)
    } else if fraction_value is None {
        Err(s)
    } else if whole_value->0 * GWEI + fraction_value->0 > u128::MAX {
        Err(s)
    } else {
        Ok((whole_value->0 * GWEI + fraction_value->0) as nat)
    }
}

/// Is this what parsing a text in gwei gives?
pub open spec fn is_gwei_result(s: Seq<char>, result: Result<U256, SnipeError>) -> bool {
    match gwei_value(s) {
        Ok(wei) => result is Ok && result->Ok_0@ == wei,
        Err(text) => result matches Err(SnipeError::InvalidGas(told)) && told@ == text,
    }
}

/// Parses an amount in gwei, such as `0.05` or `200`, into wei.
pub fn parse_gwei(value: &str) -> (wei: Result<U256, SnipeError>)
    ensures
        is_gwei_result(value@, wei),
{
    let trimmed_value = trim(value);
    let (whole, fraction) = match split_once(trimmed_value, '.') {
        Some(parts) => parts,
        None => (trimmed_value, ""),
    };
    proof {
        reveal_strlit("");
        assert((whole@, fraction@) == gwei_parts(value@));
    }
    if whole.is_empty() && fraction.is_empty() {
        return Err(SnipeError::InvalidGas(value.to_owned()));
    }
    let whole_value: u128 = if whole.is_empty() {
        0
    } else {
        match parse_u128(whole) {
            Some(n) => n,
            None => {
                return Err(SnipeError::InvalidGas(value.to_owned()));
            },
        }
    };
    let places: usize = fraction.as_bytes().len();
    if places > 9 {
        return Err(
            SnipeError::InvalidGas("more than 9 decimal places (gwei precision)".to_owned()),
        );
    }
    let mut padded = fraction.to_owned();
    let mut i: usize = places;
    assert(padded@ == fraction@ + Seq::new(0, |k: int| '0'));
    while i < 9
        invariant
            places <= i <= 9,
            padded@ == fraction@ + Seq::new((i - places) as nat, |k: int| '0'),
        decreases 9 - i,
    {
        padded.push('0');
        i += 1;
        assert(padded@ == fraction@ + Seq::new((i - places) as nat, |k: int| '0'));
    }
    let fraction_value: u128 = match parse_u128(padded.as_str()) {
        Some(n) => n,
        None => {
            return Err(SnipeError::InvalidGas(value.to_owned()));
        },
    };
    match whole_value.checked_mul(GWEI) {
        Some(scaled) => match scaled.checked_add(fraction_value) {
            Some(wei) => Ok(U256::new(wei)),
            None => Err(SnipeError::InvalidGas(value.to_owned())),
        },
        None => Err(SnipeError::InvalidGas(value.to_owned())),
    }
}

/// A number below a thousand in three digits.
pub open spec fn three_digits(n: nat) -> Seq<char> {
    if n < 10 {
        seq!['0', '0'] + decimal(n)
    } else if n < 100 {
        seq!['0'] + decimal(n)
    } else {
        decimal(n)
    }
}

/// An amount of wei in gwei, with three places; what lies beyond them is dropped.
pub open spec fn gwei_text(wei: nat) -> Seq<char> {
    decimal(wei / 1_000_000_000) + seq!['.'] + three_digits((wei % 1_000_000_000) / 1_000_000)
}

/// Writes an amount of wei in gwei, with three places.
pub fn format_gwei(wei: U256) -> (text: String)
    ensures
        text@ == gwei_text(wei@),
{
    let gwei = U256::new(GWEI);
    let whole = divided(wei, gwei);
    let fraction = remainder(wei, gwei);
    let thousandths = times(fraction, U256::new(1_000));
    proof {
        vstd::arithmetic::div_mod::lemma_small_mod(fraction@ * 1_000, modulus());
        assert((wei@ % 1_000_000_000) * 1_000 / 1_000_000_000 == (wei@ % 1_000_000_000)
            / 1_000_000);
    }
    let millis = divided(thousandths, gwei);
    let mut text = amount_text(whole);
    text.push('.');
    let digits = amount_text(millis);
    let count: usize = crate::text::to_chars(digits.as_str()).len();
    proof {
        lemma_short_decimal(millis@);
    }
    if count < 2 {
        text.append("00");
    } else if count < 3 {
        text.append("0");
    }
    proof {
        reveal_strlit("0");
        reveal_strlit("00");
    }
    text.append(digits.as_str());
    text
}

/// The wei in an ether.
pub const ETHER: u128 = 1_000_000_000_000_000_000;

/// An amount of wei as whole ether and the wei that are left, both in decimal.
pub fn ether_parts(wei: U256) -> (parts: (String, String))
    ensures
        parts.0@ == decimal(wei@ / 1_000_000_000_000_000_000),
        parts.1@ == decimal(wei@ % 1_000_000_000_000_000_000),
{
    let ether = U256::new(ETHER);
    (amount_text(divided(wei, ether)), amount_text(remainder(wei, ether)))
}

/// How many digits a number below a thousand has.
proof fn lemma_short_decimal(n: nat)
    requires
        n < 1_000,
    ensures
        decimal(n).len() == (if n < 10 {
            1nat
        } else if n < 100 {
            2
        } else {
            3
        }),
{
    reveal_with_fuel(decimal, 4);
}

/// Three digits denote the number that they were made of.
proof fn lemma_three_digits(n: nat)
    requires
        n < 1_000,
    ensures
        three_digits(n).len() == 3,
        all_digits(three_digits(n)),
        digits_value(three_digits(n)) == n,
{
    reveal_with_fuel(decimal, 4);
    reveal_with_fuel(digits_value, 5);
    lemma_short_decimal(n);
    let t = three_digits(n);
    assert(t.drop_last().drop_last().drop_last() == Seq::<char>::empty());
    assert(t == seq![t[0], t[1], t[2]]);
    if n < 10 {
        assert(t[2] == digit_char(n));
    } else if n < 100 {
        assert(t[1] == digit_char(n / 10));
        assert(t[2] == digit_char(n % 10));
    } else {
        assert(n / 10 / 10 == n / 100);
        assert(t[0] == digit_char(n / 100));
        assert(t[1] == digit_char(n / 10 % 10));
        assert(t[2] == digit_char(n % 10));
    }
    assert(t.drop_last().drop_last() == seq![t[0]]);
    assert(t.drop_last() == seq![t[0], t[1]]);
}

/// Six zeros behind a number make it a million times as great.
proof fn lemma_six_zeros(s: Seq<char>)
    requires
        all_digits(s),
    ensures
        all_digits(s + Seq::new(6, |i: int| '0')),
        digits_value(s + Seq::new(6, |i: int| '0')) == digits_value(s) * 1_000_000,
{
    let z = s + Seq::new(6, |i: int| '0');
    let p1 = s.push('0');
    let p2 = p1.push('0');
    let p3 = p2.push('0');
    let p4 = p3.push('0');
    let p5 = p4.push('0');
    assert(z == p5.push('0'));
    assert(z.drop_last() == p5);
    assert(p5.drop_last() == p4);
    assert(p4.drop_last() == p3);
    assert(p3.drop_last() == p2);
    assert(p2.drop_last() == p1);
    assert(p1.drop_last() == s);
    reveal_with_fuel(digits_value, 7);
    assert(digits_value(p1) == digits_value(s) * 10);
    assert(digits_value(p2) == digits_value(p1) * 10);
    assert(digits_value(p3) == digits_value(p2) * 10);
    assert(digits_value(p4) == digits_value(p3) * 10);
    assert(digits_value(p5) == digits_value(p4) * 10);
    assert(digits_value(z) == digits_value(p5) * 10);
}

/// What `format_gwei` writes, `parse_gwei` reads back, up to the places that were dropped. (An
/// amount beyond 128 bits is written, but not read.)
pub proof fn law_gwei_text_parses(wei: nat)
    requires
        wei <= u128::MAX,
    ensures
        gwei_value(gwei_text(wei)) == Ok::<nat, Seq<char>>(wei / 1_000_000 * 1_000_000),
{
    let whole = wei / 1_000_000_000;
    let millis = (wei % 1_000_000_000) / 1_000_000;
    let d = decimal(whole);
    let t = three_digits(millis);
    let s = gwei_text(wei);
    lemma_decimal_reads_back(whole);
    lemma_three_digits(millis);
    assert(is_digit(d[0]));
    assert(is_digit(t[2]));
    assert(s[0] == d[0]);
    assert(s.last() == t[2]);
    assert(trim_start(s) == s);
    assert(trim_end(s) == s);
    let i = next_index(s, '.', 0);
    lemma_next_index(s, '.', 0);
    assert(s[d.len() as int] == '.');
    if i < d.len() {
        assert(is_digit(d[i]));
    }
    assert(i == d.len());
    assert(s.take(i) == d);
    assert(s.skip(i + 1) == t);
    assert(gwei_parts(s) == (d, t));
    assert forall|k: int| 0 <= k < t.len() implies (#[trigger] t[k]) as u32 <= 127 by {
        assert(is_digit(t[k]));
    }
    is_ascii_chars_encode_utf8(t);
    assert(encode_utf8(t).len() == 3);
    law_decimal_parses(whole, u128::MAX as nat);
    lemma_six_zeros(t);
    assert(nine_places(t) == t + Seq::new(6, |k: int| '0'));
    let p = nine_places(t);
    assert(is_digit(p[0]));
    assert(unsigned_value(p, u128::MAX as nat) == Some(millis * 1_000_000));
    assert(whole * 1_000_000_000 + millis * 1_000_000 == wei / 1_000_000 * 1_000_000);
}

/// Zeros behind a number multiply it by ten each.
proof fn lemma_zeros_behind(s: Seq<char>, k: nat)
    requires
        all_digits(s),
    ensures
        all_digits(s + Seq::new(k, |i: int| '0')),
        digits_value(s + Seq::new(k, |i: int| '0')) == digits_value(s) * pow(10, k),
    decreases k,
{
    let z = s + Seq::new(k, |i: int| '0');
    reveal(pow);
    if k == 0 {
        assert(z == s);
        assert(pow(10, 0) == 1);
    } else {
        let before = s + Seq::new((k - 1) as nat, |i: int| '0');
        lemma_zeros_behind(s, (k - 1) as nat);
        assert(z.drop_last() == before);
        assert(z == before.push('0'));
        assert(pow(10, k) == 10 * pow(10, (k - 1) as nat));
        assert(digits_value(z) == digits_value(before) * 10);
        let v = digits_value(s) as int;
        let p = pow(10, (k - 1) as nat);
        assert(v * p * 10 == v * (10 * p)) by (nonlinear_arith);
    }
}

/// What an amount in gwei is worth: the digits before the point count gwei, and those behind it, of
/// which there may be up to nine, count fractions of one, to the single wei.
pub proof fn law_gwei_is_exact(whole: Seq<char>, fraction: Seq<char>)
    requires
        all_digits(whole),
        all_digits(fraction),
        whole.len() > 0,
        0 < fraction.len() <= 9,
    ensures
        ({
            let wei = digits_value(whole) * 1_000_000_000 + digits_value(fraction) * pow(
                10,
                (9 - fraction.len()) as nat,
            );
            &&& wei <= u128::MAX ==> (gwei_value(whole + seq!['.'] + fraction) matches Ok(value)
                && value == wei)
            &&& wei > u128::MAX ==> gwei_value(whole + seq!['.'] + fraction) is Err
        }),
{
    let s = whole + seq!['.'] + fraction;
    assert(is_digit(whole[0]));
    assert(is_digit(fraction.last()));
    assert(s[0] == whole[0]);
    assert(s.last() == fraction.last());
    assert(trim_start(s) == s);
    assert(trim_end(s) == s);
    assert(!whole.contains('.')) by {
        if whole.contains('.') {
            let i = choose|i: int| 0 <= i < whole.len() && whole[i] == '.';
            assert(is_digit(whole[i]));
        }
    }
    law_cut_at_the_first(whole, '.', fraction);
    assert(gwei_parts(s) == (whole, fraction));
    assert forall|k: int| 0 <= k < fraction.len() implies (#[trigger] fraction[k]) as u32 <= 127 by {
        assert(is_digit(fraction[k]));
    }
    is_ascii_chars_encode_utf8(fraction);
    let places = (9 - fraction.len()) as nat;
    lemma_zeros_behind(fraction, places);
    let p = nine_places(fraction);
    assert(p == fraction + Seq::new(places, |k: int| '0'));
    assert(is_digit(p[0]));
}

/// Without a point, or with nothing before it, the other side counts alone.
pub proof fn law_gwei_of_one_side(digits: Seq<char>)
    requires
        all_digits(digits),
        digits.len() > 0,
    ensures
        digits_value(digits) * 1_000_000_000 <= u128::MAX ==> (gwei_value(digits) matches Ok(value)
            && value == digits_value(digits) * 1_000_000_000),
        digits_value(digits) * 1_000_000_000 > u128::MAX ==> gwei_value(digits) is Err,
        digits.len() <= 9 && digits_value(digits) * pow(10, (9 - digits.len()) as nat)
            <= u128::MAX ==> (gwei_value(seq!['.'] + digits) matches Ok(value) && value
            == digits_value(digits) * pow(10, (9 - digits.len()) as nat)),
{
    assert(is_digit(digits[0]));
    assert(is_digit(digits.last()));
    assert(trim_start(digits) == digits);
    assert(trim_end(digits) == digits);
    assert(!digits.contains('.')) by {
        if digits.contains('.') {
            let i = choose|i: int| 0 <= i < digits.len() && digits[i] == '.';
            assert(is_digit(digits[i]));
        }
    }
    law_cut_at_the_first(digits, '.', Seq::empty());
    assert(gwei_parts(digits) == (digits, Seq::<char>::empty()));
    let nothing = Seq::<char>::empty();
    is_ascii_chars_encode_utf8(nothing);
    assert(encode_utf8(nothing).len() == 0);
    lemma_zeros_behind(nothing, 9);
    assert(nine_places(nothing) == nothing + Seq::new(9, |k: int| '0'));
    assert(digits_value(nothing) == 0);
    assert(0 * pow(10, 9) == 0) by (nonlinear_arith);
    assert(digits_value(nine_places(nothing)) == 0);
    assert(is_digit(nine_places(nothing)[0]));
    if digits.len() <= 9 {
        let s = seq!['.'] + digits;
        assert(s.last() == digits.last());
        assert(s[0] == '.');
        assert(trim_start(s) == s);
        assert(trim_end(s) == s);
        law_cut_at_the_first(nothing, '.', digits);
        assert(nothing + seq!['.'] + digits == s);
        assert(gwei_parts(s) == (nothing, digits));
        assert forall|k: int| 0 <= k < digits.len() implies (#[trigger] digits[k]) as u32 <= 127 by {
            assert(is_digit(digits[k]));
        }
        is_ascii_chars_encode_utf8(digits);
        let places = (9 - digits.len()) as nat;
        lemma_zeros_behind(digits, places);
        let p = nine_places(digits);
        assert(p == digits + Seq::new(places, |k: int| '0'));
        assert(is_digit(p[0]));
    }
}

/// A tenth place is refused, and the error says why.
pub proof fn law_gwei_has_nine_places(whole: Seq<char>, fraction: Seq<char>)
    requires
        all_digits(whole),
        all_digits(fraction),
        whole.len() > 0,
        digits_value(whole) <= u128::MAX,
        fraction.len() > 9,
    ensures
        gwei_value(whole + seq!['.'] + fraction) == Err::<nat, Seq<char>>(
            "more than 9 decimal places (gwei precision)"@,
        ),
{
    let s = whole + seq!['.'] + fraction;
    assert(is_digit(whole[0]));
    assert(is_digit(fraction.last()));
    assert(s[0] == whole[0]);
    assert(s.last() == fraction.last());
    assert(trim_start(s) == s);
    assert(trim_end(s) == s);
    assert(!whole.contains('.')) by {
        if whole.contains('.') {
            let i = choose|i: int| 0 <= i < whole.len() && whole[i] == '.';
            assert(is_digit(whole[i]));
        }
    }
    law_cut_at_the_first(whole, '.', fraction);
    assert(gwei_parts(s) == (whole, fraction));
    assert forall|k: int| 0 <= k < fraction.len() implies (#[trigger] fraction[k]) as u32 <= 127 by {
        assert(is_digit(fraction[k]));
    }
    is_ascii_chars_encode_utf8(fraction);
}

/// An amount in gwei is written with exactly three places, and never as more than it is.
pub proof fn law_gwei_text_rounds_down(wei: nat, other: nat)
    ensures
        gwei_text(wei).len() == decimal(wei / 1_000_000_000).len() + 4,
        gwei_text(wei)[decimal(wei / 1_000_000_000).len() as int] == '.',
        wei / 1_000_000 == other / 1_000_000 ==> gwei_text(wei) == gwei_text(other),
        wei <= u128::MAX && other <= u128::MAX && wei / 1_000_000 != other / 1_000_000
            ==> gwei_text(wei) != gwei_text(other),
{
    lemma_three_digits((wei % 1_000_000_000) / 1_000_000);
    if wei / 1_000_000 == other / 1_000_000 {
        assert(wei / 1_000_000_000 == other / 1_000_000_000);
        assert((wei % 1_000_000_000) / 1_000_000 == (other % 1_000_000_000) / 1_000_000);
    } else if wei <= u128::MAX && other <= u128::MAX {
        law_gwei_text_parses(wei);
        law_gwei_text_parses(other);
    }
}

/// What is no amount: nothing at all, a point alone, and whatever holds a second point or anything
/// but digits, points and plus signs. The error quotes the text as it came.
pub proof fn law_bad_gwei_is_refused(s: Seq<char>, i: int, j: int)
    ensures
        trimmed(s).len() == 0 ==> gwei_value(s) == Err::<nat, Seq<char>>(s),
        trimmed(s) == seq!['.'] ==> gwei_value(s) == Err::<nat, Seq<char>>(s),
        0 <= i < trimmed(s).len() && !is_digit(trimmed(s)[i]) && trimmed(s)[i] != '.' && trimmed(
            s,
        )[i] != '+' ==> gwei_value(s) is Err,
        0 <= i < j < trimmed(s).len() && trimmed(s)[i] == '.' && trimmed(s)[j] == '.' ==> gwei_value(
            s,
        ) is Err,
        gwei_value(s) matches Err(told) ==> told == s || told
            == "more than 9 decimal places (gwei precision)"@,
{
    let t = trimmed(s);
    let k = next_index(t, '.', 0);
    lemma_next_index(t, '.', 0);
    let (whole, fraction) = gwei_parts(s);
    let padded = nine_places(fraction);
    if t.len() == 0 {
        assert(whole.len() == 0);
    }
    if t == seq!['.'] {
        assert(k == 0);
        assert(whole.len() == 0 && fraction.len() == 0);
    }
    if 0 <= i < t.len() && !is_digit(t[i]) && t[i] != '.' && t[i] != '+' {
        if i < k {
            assert(whole[i] == t[i]);
            if whole[0] == '+' {
                assert(whole.skip(1)[i - 1] == t[i]);
            }
            assert(unsigned_value(whole, u128::MAX as nat) is None);
        } else {
            let f = i - k - 1;
            assert(fraction[f] == t[i]);
            assert(padded[f] == t[i]);
            if padded[0] == '+' {
                assert(padded.skip(1)[f - 1] == t[i]);
            }
            assert(unsigned_value(padded, u128::MAX as nat) is None);
        }
    }
    if 0 <= i < j < t.len() && t[i] == '.' && t[j] == '.' {
        assert(k <= i);
        let f = j - k - 1;
        assert(fraction[f] == '.');
        assert(padded[f] == '.');
        assert(!is_digit('.'));
        if padded[0] == '+' {
            assert(padded.skip(1)[f - 1] == '.');
        }
        assert(unsigned_value(padded, u128::MAX as nat) is None);
    }
}

/// An error tells its details, each in its place.
pub proof fn law_errors_tell_their_details(
    text: String,
    count: usize,
    chain_id: u64,
    other_id: u64,
    address: Address,
    balance: U256,
    required: U256,
    error: ChainError,
)
    ensures
        SnipeError::InvalidCollection(text).spec_message() == "invalid collection locator: "@ + text@,
        SnipeError::SlugLookup(text).spec_message() == "OpenSea slug lookup failed: "@ + text@,
        SnipeError::InvalidRpc(text).spec_message() == "invalid RPC endpoint: "@ + text@,
        SnipeError::InvalidGas(text).spec_message() == "invalid gas value: "@ + text@,
        SnipeError::InvalidQuantity(text).spec_message() == "invalid mint quantity: "@ + text@,
        SnipeError::Wallet(text).spec_message() == text@,
        SnipeError::Transaction(text).spec_message() == text@,
        SnipeError::Manifest(text).spec_message() == text@,
        SnipeError::Chain(error).spec_message() == error.spec_message(),
        (SnipeError::NoWorkingRpc { count }).spec_message()
            == "no working RPC endpoint after probing "@ + decimal(count as nat)
            + " candidate(s)"@,
        (SnipeError::NoEndpointForChain { chain: text, chain_id }).spec_message()
            == "no RPC endpoint on the selected chain ("@ + text@ + ", id "@ + decimal(
            chain_id as nat,
        ) + ")"@,
        (SnipeError::ChainMismatch { first: chain_id, second: other_id }).spec_message()
            == "chain id mismatch: RPCs disagree ("@ + decimal(chain_id as nat) + " vs "@ + decimal(
            other_id as nat,
        ) + ")"@,
        (SnipeError::Underfunded { address, balance, required, affordable: text }).spec_message()
            == "wallet "@ + checksum_text(address@)
            + " cannot cover mint value + gas: balance "@ + decimal(balance@) + " wei, required "@
            + decimal(required@) + " wei; highest affordable max fee ≈ "@ + text@ + " gwei"@,
{
}

/// The options as a value are the options.
pub proof fn law_options_value(options: SnipeOptions)
    ensures
        options@.collection == options.collection@,
        options@.quantity == options.quantity,
        options@.key_count == options.key_count,
        options@.early_fire_ms == options.early_fire_ms,
        options@.fire_now == options.fire_now,
        options@.gas_limit == options.gas_limit,
        options.chain is Some <==> options@.chain is Some,
        options.chain matches Some(chain) ==> options@.chain == Some(chain@),
        options.wallets_file is Some <==> options@.wallets_file is Some,
        options.wallets_file matches Some(file) ==> options@.wallets_file == Some(file@),
        options.wallet_indices is Some <==> options@.wallet_indices is Some,
        options.wallet_indices matches Some(list) ==> options@.wallet_indices == Some(list@),
        options.max_fee_per_gas is Some <==> options@.max_fee is Some,
        options.max_fee_per_gas matches Some(fee) ==> options@.max_fee == Some(fee@),
        options.max_priority_fee_per_gas is Some <==> options@.priority_fee is Some,
        options.max_priority_fee_per_gas matches Some(fee) ==> options@.priority_fee == Some(fee@),
        options@.rpc_urls.len() == options.rpc_urls@.len(),
        forall|i: int|
            0 <= i < options.rpc_urls@.len() ==> #[trigger] options@.rpc_urls[i]
                == options.rpc_urls@[i]@,
{
}

} // verus!
