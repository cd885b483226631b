//! Who mints how much, for what fees, and whether the wallet can pay.

use vstd::prelude::*;

use crate::chain::{AccountState, ChainError, FeeEstimate};
use crate::hexdata::Address;
use crate::seadrop::LocalMintPlan;
use crate::snipe::{format_gwei, gwei_text, SnipeError, SnipeOptions};
use crate::uint::{
    checked_add, checked_mul, divided, less, modulus, plus, saturating_sub, small_amount, times,
    U256,
};

verus! {

/// Where a wallet comes from.
#[derive(Clone, Copy, Debug, PartialEq, Eq, Structural)]
pub enum WalletSource {
    /// The private key at that index.
    Key(usize),
    /// The entry at that index of the wallets file.
    Manifest(usize),
}

/// A wallet that takes part.
#[derive(Clone, Copy, Debug, PartialEq, Eq, Structural)]
pub struct WalletChoice {
    /// Where it comes from.
    pub source: WalletSource,
    /// How many tokens it mints.
    pub quantity: u64,
}

/// Does an entry of the wallets file take part? All do where no index is named.
pub open spec fn is_selected(indices: Option<Vec<usize>>, index: int) -> bool {
    match indices {
        Some(list) => list@.len() == 0 || exists|k: int|
            0 <= k < list@.len() && (#[trigger] list@[k]) == index,
        None => true,
    }
}

/// The quantity that was asked for; otherwise the wallet's own.
pub open spec fn quantity_or(asked: Option<u64>, own: u64) -> u64 {
    match asked {
        Some(quantity) => quantity,
        None => own,
    }
}

/// The wallets of the keys: one token each, unless asked otherwise.
pub open spec fn key_wallets(options: SnipeOptions) -> Seq<WalletChoice> {
    Seq::new(
        options.key_count as nat,
        |i: int|
            (WalletChoice {
                source: WalletSource::Key(i as usize),
                quantity: quantity_or(options.quantity, 1),
            }),
    )
}

/// The selected entries of a wallets file, given each entry's own quantity.
pub open spec fn manifest_wallets(options: SnipeOptions, quantities: Seq<u64>) -> Seq<WalletChoice>
    decreases quantities.len(),
{
    if quantities.len() == 0 {
        Seq::empty()
    } else {
        let index = quantities.len() - 1;
        let before = manifest_wallets(options, quantities.drop_last());
        if is_selected(options.wallet_indices, index) {
            before.push(
                (WalletChoice {
                    source: WalletSource::Manifest(index as usize),
                    quantity: quantity_or(options.quantity, quantities.last()),
                }),
            )
        } else {
            before
        }
    }
}

/// The wallets that take part: those of the keys, then those of the file.
pub open spec fn chosen_wallets(options: SnipeOptions, quantities: Seq<u64>) -> Seq<WalletChoice> {
    key_wallets(options) + manifest_wallets(options, quantities)
}

/// Tells whether an entry of the wallets file takes part.
fn selects(indices: &Option<Vec<usize>>, index: usize) -> (yes: bool)
    ensures
        yes == is_selected(*indices, index as int),
{
    match indices {
        Some(list) => {
            if list.len() == 0 {
                return true;
            }
            let mut k: usize = 0;
            while k < list.len()
                invariant
                    k <= list@.len(),
                    *indices == Some(*list),
                    forall|j: int| 0 <= j < k ==> (#[trigger] list@[j]) != index,
                decreases list@.len() - k,
            {
                if list[k] == index {
                    return true;
                }
                k += 1;
            }
            false
        },
        None => true,
    }
}

/// Settles which wallets take part. `key_error` tells why a key cannot be used, and `manifest` is
/// what the wallets file holds: the own quantity of each entry, or why it cannot be read.
pub fn load_wallets(
    options: &SnipeOptions,
    key_error: Option<String>,
    manifest: Option<Result<Vec<u64>, String>>,
) -> (wallets: Result<Vec<WalletChoice>, SnipeError>)
    ensures
        match (key_error, manifest) {
            (Some(error), _) => wallets == Err::<Vec<WalletChoice>, SnipeError>(
                SnipeError::Wallet(error),
            ),
            (None, Some(Err(error))) => wallets == Err::<Vec<WalletChoice>, SnipeError>(
                SnipeError::Manifest(error),
            ),
            (None, other) => {
                let quantities = match other {
                    Some(Ok(list)) => list@,
                    _ => Seq::empty(),
                };
                let chosen = chosen_wallets(*options, quantities);
                if chosen.len() == 0 {
                    wallets == Err::<Vec<WalletChoice>, SnipeError>(SnipeError::NoWallets)
                } else {
                    wallets is Ok && wallets->Ok_0@ == chosen
                }
            },
        },
        wallets matches Ok(list) ==> (options.quantity matches Some(asked) ==> forall|i: int|
            0 <= i < list@.len() ==> (#[trigger] list@[i]).quantity == asked),
{
    if let Some(error) = key_error {
        return Err(SnipeError::Wallet(error));
    }
    let quantities: Vec<u64> = match manifest {
        Some(Ok(list)) => list,
        Some(Err(error)) => {
            return Err(SnipeError::Manifest(error));
        },
        None => Vec::new(),
    };
    let mut wallets: Vec<WalletChoice> = Vec::new();
    let mut i: usize = 0;
    while i < options.key_count
        invariant
            i <= options.key_count,
            wallets@ == key_wallets(*options).take(i as int),
        decreases options.key_count - i,
    {
        let quantity: u64 = match options.quantity {
            Some(quantity) => quantity,
            None => 1,
        };
        wallets.push(WalletChoice { source: WalletSource::Key(i), quantity });
        i += 1;
        assert(key_wallets(*options).take(i as int) == key_wallets(*options).take(i - 1).push(
            key_wallets(*options)[i - 1],
        ));
    }
    assert(wallets@ == key_wallets(*options));
    let mut k: usize = 0;
    assert(quantities@.take(0) == Seq::<u64>::empty());
    assert(wallets@ == key_wallets(*options) + Seq::<WalletChoice>::empty());
    while k < quantities.len()
        invariant
            k <= quantities@.len(),
            wallets@ == key_wallets(*options) + manifest_wallets(
                *options,
                quantities@.take(k as int),
            ),
        decreases quantities@.len() - k,
    {
        assert(quantities@.take(k + 1).drop_last() == quantities@.take(k as int));
        if selects(&options.wallet_indices, k) {
            let quantity: u64 = match options.quantity {
                Some(quantity) => quantity,
                None => quantities[k],
            };
            wallets.push(WalletChoice { source: WalletSource::Manifest(k), quantity });
        }
        k += 1;
        assert(wallets@ == key_wallets(*options) + manifest_wallets(
            *options,
            quantities@.take(k as int),
        ));
    }
    assert(quantities@.take(k as int) == quantities@);
    if wallets.len() == 0 {
        return Err(SnipeError::NoWallets);
    }
    proof {
        assert(quantities.len() == quantities@.len());
        assert forall|i: int| 0 <= i < wallets@.len() implies (options.quantity matches Some(asked)
            ==> (#[trigger] wallets@[i]).quantity == asked) by {
            law_wallet_quantities(*options, quantities@, i);
        }
    }
    Ok(wallets)
}

/// No wallet takes part twice: wallets of different places come from different sources.
pub proof fn law_wallets_are_distinct(options: SnipeOptions, quantities: Seq<u64>)
    requires
        quantities.len() <= usize::MAX,
    ensures
        forall|i: int, j: int|
            0 <= i < j < chosen_wallets(options, quantities).len() ==> (#[trigger] chosen_wallets(
                options,
                quantities,
            )[i]).source != (#[trigger] chosen_wallets(options, quantities)[j]).source,
{
    lemma_manifest_wallets(options, quantities);
    let keys = key_wallets(options);
    let listed = manifest_wallets(options, quantities);
    let all = chosen_wallets(options, quantities);
    assert forall|i: int, j: int| 0 <= i < j < all.len() implies (#[trigger] all[i]).source != (
    #[trigger] all[j]).source by {
        if j < keys.len() {
            assert(all[i].source == WalletSource::Key(i as usize));
            assert(all[j].source == WalletSource::Key(j as usize));
        } else if i >= keys.len() {
            assert(all[i] == listed[i - keys.len()]);
            assert(all[j] == listed[j - keys.len()]);
        } else {
            assert(all[i].source == WalletSource::Key(i as usize));
            assert(all[j] == listed[j - keys.len()]);
        }
    }
}

/// The wallets of a file stand in the order of the file.
pub proof fn lemma_manifest_wallets(options: SnipeOptions, quantities: Seq<u64>)
    requires
        quantities.len() <= usize::MAX,
    ensures
        forall|i: int|
            0 <= i < manifest_wallets(options, quantities).len() ==> ((#[trigger] manifest_wallets(
                options,
                quantities,
            )[i]).source is Manifest && manifest_wallets(options, quantities)[i].source->Manifest_0
                < quantities.len()),
        forall|i: int, j: int|
            0 <= i < j < manifest_wallets(options, quantities).len() ==> (
            #[trigger] manifest_wallets(options, quantities)[i]).source->Manifest_0 < (
            #[trigger] manifest_wallets(options, quantities)[j]).source->Manifest_0,
    decreases quantities.len(),
{
    if quantities.len() > 0 {
        lemma_manifest_wallets(options, quantities.drop_last());
    }
}

/// The gas that a transaction may use: never less than a plain transfer takes.
pub open spec fn gas_limit_of(asked: u64) -> u64 {
    if asked < 21_000 {
        21_000
    } else {
        asked
    }
}

/// Raises a gas limit to what a plain transfer takes.
pub fn effective_gas_limit(asked: u64) -> (limit: u64)
    ensures
        limit == gas_limit_of(asked),
{
    if asked < 21_000 {
        21_000
    } else {
        asked
    }
}

/// How far the fees are settled.
#[derive(Clone, Copy, Debug)]
pub enum FeeStep {
    /// They are.
    Settled(FeeEstimate),
    /// The chain has to be asked for an estimate.
    AskEstimate,
    /// The chain has to be asked for the base fee of the latest block.
    AskBaseFee,
}

/// How far the fees are settled by what was asked for: entirely where both were, and otherwise the
/// chain has to be asked.
pub open spec fn first_fee_step(max_fee: Option<U256>, priority_fee: Option<U256>) -> FeeStep {
    match (max_fee, priority_fee) {
        (Some(max), Some(priority)) => FeeStep::Settled(
            FeeEstimate { max_fee_per_gas: max, max_priority_fee_per_gas: priority },
        ),
        (None, Some(_)) => FeeStep::AskBaseFee,
        (_, None) => FeeStep::AskEstimate,
    }
}

/// How far the fees are settled once the chain has been asked for an estimate. A maximum that was
/// asked for stays, with no priority fee where there is no estimate; without a maximum the estimate
/// decides, and where there is none the base fee has to.
pub open spec fn second_fee_step(max_fee: Option<U256>, estimate: Option<FeeEstimate>) -> FeeStep {
    match (max_fee, estimate) {
        (Some(max), Some(fees)) => FeeStep::Settled(
            FeeEstimate {
                max_fee_per_gas: max,
                max_priority_fee_per_gas: fees.max_priority_fee_per_gas,
            },
        ),
        (Some(max), None) => FeeStep::Settled(
            FeeEstimate { max_fee_per_gas: max, max_priority_fee_per_gas: small_amount(0) },
        ),
        (None, Some(fees)) => FeeStep::Settled(fees),
        (None, None) => FeeStep::AskBaseFee,
    }
}

/// Begins to settle the fees.
pub fn start_fees(max_fee: Option<U256>, priority_fee: Option<U256>) -> (step: FeeStep)
    ensures
        step == first_fee_step(max_fee, priority_fee),
{
    match (max_fee, priority_fee) {
        (Some(max), Some(priority)) => FeeStep::Settled(
            FeeEstimate { max_fee_per_gas: max, max_priority_fee_per_gas: priority },
        ),
        (None, Some(_)) => FeeStep::AskBaseFee,
        (_, None) => FeeStep::AskEstimate,
    }
}

/// Goes on with an estimate, where the chain gave one.
pub fn fees_from_estimate(max_fee: Option<U256>, estimate: Option<FeeEstimate>) -> (step: FeeStep)
    ensures
        step == second_fee_step(max_fee, estimate),
{
    match (max_fee, estimate) {
        (Some(max), Some(fees)) => FeeStep::Settled(
            FeeEstimate {
                max_fee_per_gas: max,
                max_priority_fee_per_gas: fees.max_priority_fee_per_gas,
            },
        ),
        (Some(max), None) => FeeStep::Settled(
            FeeEstimate { max_fee_per_gas: max, max_priority_fee_per_gas: U256::new(0) },
        ),
        (None, Some(fees)) => FeeStep::Settled(fees),
        (None, None) => FeeStep::AskBaseFee,
    }
}

/// The amount, or zero where there is none.
pub open spec fn amount_or_zero(amount: Option<U256>) -> nat {
    match amount {
        Some(value) => value@,
        None => 0,
    }
}

/// Are these the fees that follow from the base fee of the latest block? The maximum is twice that
/// and the priority fee.
pub open spec fn fees_of_base(
    priority_fee: Option<U256>,
    base: Option<U256>,
    fees: FeeEstimate,
) -> bool {
    &&& fees.max_fee_per_gas@ == (amount_or_zero(base) * 2 + amount_or_zero(priority_fee))
        % modulus()
    &&& fees.max_priority_fee_per_gas == (match priority_fee {
        Some(priority) => priority,
        None => small_amount(0),
    })
}

/// Ends with the base fee of the latest block.
pub fn fees_from_base(
    priority_fee: Option<U256>,
    base_fee: Result<Option<U256>, ChainError>,
) -> (fees: Result<FeeEstimate, SnipeError>)
    ensures
        match base_fee {
            Err(error) => fees == Err::<FeeEstimate, SnipeError>(SnipeError::Chain(error)),
            Ok(base) => fees is Ok && fees_of_base(priority_fee, base, fees->Ok_0),
        },
{
    let base = match base_fee {
        Ok(Some(base)) => base,
        Ok(None) => U256::new(0),
        Err(error) => {
            return Err(SnipeError::Chain(error));
        },
    };
    let priority = match priority_fee {
        Some(priority) => priority,
        None => U256::new(0),
    };
    let doubled = times(base, U256::new(2));
    proof {
        vstd::arithmetic::div_mod::lemma_add_mod_noop_right(
            priority@ as int,
            (base@ * 2) as int,
            modulus() as int,
        );
    }
    Ok(
        FeeEstimate {
            max_fee_per_gas: plus(doubled, priority),
            max_priority_fee_per_gas: priority,
        },
    )
}

/// What was asked for explicitly wins: whatever the chain says, a maximum or a priority fee that was
/// asked for is the one that the fees are settled with.
pub proof fn law_explicit_fees_win(
    max_fee: Option<U256>,
    priority_fee: Option<U256>,
    estimate: Option<FeeEstimate>,
    base: Option<U256>,
    fees: FeeEstimate,
)
    requires
        ({
            let first = first_fee_step(max_fee, priority_fee);
            let last = if first is AskEstimate {
                second_fee_step(max_fee, estimate)
            } else {
                first
            };
            last == FeeStep::Settled(fees) || (last is AskBaseFee && fees_of_base(
                priority_fee,
                base,
                fees,
            ))
        }),
    ensures
        max_fee matches Some(max) ==> fees.max_fee_per_gas == max,
        priority_fee matches Some(priority) ==> fees.max_priority_fee_per_gas == priority,
{
}

/// What a wallet has to hold: the tokens' price and all the gas at the highest fee.
pub open spec fn cost(value: nat, gas_limit: nat, max_fee: nat) -> nat {
    value + gas_limit * max_fee
}

/// The highest fee that a balance covers besides the tokens' price.
pub open spec fn affordable_fee(balance: nat, value: nat, gas_limit: nat) -> nat {
    (if balance >= value {
        (balance - value) as nat
    } else {
        0
    }) / gas_limit
}

/// Is `result` what becomes of a wallet that holds `balance`?
pub open spec fn is_funds_result(
    address: Address,
    balance: U256,
    value: nat,
    gas_limit: nat,
    max_fee: nat,
    result: Result<U256, SnipeError>,
) -> bool {
    if gas_limit * max_fee >= modulus() {
        result matches Err(SnipeError::InvalidGas(told)) && told@ == "gas cost overflow"@
    } else if cost(value, gas_limit, max_fee) >= modulus() {
        result matches Err(SnipeError::InvalidGas(told)) && told@ == "total cost overflow"@
    } else if balance@ < cost(value, gas_limit, max_fee) {
        result matches Err(SnipeError::Underfunded { address: who, balance: held, required, affordable })
            && who == address && held == balance && required@ == cost(value, gas_limit, max_fee)
            && affordable@ == gwei_text(affordable_fee(balance@, value, gas_limit))
    } else {
        result is Ok && result->Ok_0@ == cost(value, gas_limit, max_fee)
    }
}

/// Checks that a wallet can pay for the tokens and the gas; gives what that takes.
pub fn check_funds(
    address: Address,
    balance: U256,
    value: U256,
    gas_limit: u64,
    max_fee_per_gas: U256,
) -> (required: Result<U256, SnipeError>)
    requires
        gas_limit > 0,
    ensures
        is_funds_result(address, balance, value@, gas_limit as nat, max_fee_per_gas@, required),
{
    let gas = U256::new(gas_limit as u128);
    let gas_cost = match checked_mul(gas, max_fee_per_gas) {
        Some(amount) => amount,
        None => {
            return Err(SnipeError::InvalidGas("gas cost overflow".to_owned()));
        },
    };
    let required = match checked_add(value, gas_cost) {
        Some(amount) => amount,
        None => {
            return Err(SnipeError::InvalidGas("total cost overflow".to_owned()));
        },
    };
    if less(balance, required) {
        let affordable = divided(saturating_sub(balance, value), gas);
        return Err(
            SnipeError::Underfunded {
                address,
                balance,
                required,
                affordable: format_gwei(affordable),
            },
        );
    }
    Ok(required)
}

/// Where the balance covers the price, it covers the gas at the affordable fee as well, and at no
/// higher one.
pub proof fn law_affordable_fee_is_highest(balance: nat, value: nat, gas_limit: nat)
    requires
        balance >= value,
        gas_limit > 0,
    ensures
        cost(value, gas_limit, affordable_fee(balance, value, gas_limit)) <= balance,
        forall|fee: nat|
            fee > affordable_fee(balance, value, gas_limit) ==> #[trigger] cost(
                value,
                gas_limit,
                fee,
            ) > balance,
{
    let rest = (balance - value) as nat;
    let best = rest / gas_limit;
    vstd::arithmetic::div_mod::lemma_fundamental_div_mod(rest as int, gas_limit as int);
    assert(gas_limit * best <= rest);
    assert forall|fee: nat| fee > best implies #[trigger] cost(value, gas_limit, fee) > balance by {
        assert(gas_limit * fee >= gas_limit * (best + 1)) by (nonlinear_arith)
            requires
                fee >= best + 1,
        ;
        assert(gas_limit * (best + 1) == gas_limit * best + gas_limit) by (nonlinear_arith);
    }
}

/// A transaction to be signed.
#[derive(Debug)]
pub struct Eip1559Transaction {
    /// The chain.
    pub chain_id: u64,
    /// The sender's nonce.
    pub nonce: u64,
    /// The part of the fee that goes to the block's producer.
    pub max_priority_fee_per_gas: U256,
    /// The most to pay for a unit of gas.
    pub max_fee_per_gas: U256,
    /// How much gas it may use.
    pub gas_limit: u64,
    /// The contract.
    pub target: Address,
    /// The wei that go with it.
    pub value: U256,
    /// The call.
    pub calldata: Vec<u8>,
}

/// Is `transaction` the one that carries out a plan?
pub open spec fn carries_out(
    chain_id: u64,
    gas_limit: u64,
    fees: FeeEstimate,
    account: AccountState,
    plan: LocalMintPlan,
    transaction: Eip1559Transaction,
) -> bool {
    &&& transaction.chain_id == chain_id
    &&& transaction.nonce == account.pending_nonce
    &&& transaction.max_priority_fee_per_gas == fees.max_priority_fee_per_gas
    &&& transaction.max_fee_per_gas == fees.max_fee_per_gas
    &&& transaction.gas_limit == gas_limit
    &&& transaction.target == plan.to
    &&& transaction.value == plan.value
    &&& transaction.calldata@ == plan.data@
}

/// Makes the transaction of one wallet, provided that the wallet can pay for it.
pub fn build_transaction(
    chain_id: u64,
    gas_limit: u64,
    fees: FeeEstimate,
    address: Address,
    account: AccountState,
    plan: &LocalMintPlan,
) -> (transaction: Result<Eip1559Transaction, SnipeError>)
    requires
        gas_limit > 0,
    ensures
        ({
            let required = cost(plan.value@, gas_limit as nat, fees.max_fee_per_gas@);
            let payable = required < modulus() && account.balance@ >= required;
            &&& transaction is Ok <==> payable
            &&& transaction matches Ok(made) ==> carries_out(
                chain_id,
                gas_limit,
                fees,
                account,
                *plan,
                made,
            )
            &&& transaction matches Err(error) ==> is_funds_result(
                address,
                account.balance,
                plan.value@,
                gas_limit as nat,
                fees.max_fee_per_gas@,
                Err(error),
            )
        }),
{
    match check_funds(address, account.balance, plan.value, gas_limit, fees.max_fee_per_gas) {
        Ok(_) => {
            let mut calldata: Vec<u8> = Vec::new();
            calldata.extend_from_slice(plan.data.as_slice());
            assert(calldata@ == plan.data@);
            Ok(
                Eip1559Transaction {
                    chain_id,
                    nonce: account.pending_nonce,
                    max_priority_fee_per_gas: fees.max_priority_fee_per_gas,
                    max_fee_per_gas: fees.max_fee_per_gas,
                    gas_limit,
                    target: plan.to,
                    value: plan.value,
                    calldata,
                },
            )
        },
        Err(error) => Err(error),
    }
}

/// How much each wallet mints: what was asked for, where a quantity was; otherwise a key's wallet
/// mints one token, and a file's wallet as many as its own entry says.
pub proof fn law_wallet_quantities(options: SnipeOptions, quantities: Seq<u64>, i: int)
    requires
        quantities.len() <= usize::MAX,
        0 <= i < chosen_wallets(options, quantities).len(),
    ensures
        ({
            let wallet = chosen_wallets(options, quantities)[i];
            &&& options.quantity matches Some(asked) ==> wallet.quantity == asked
            &&& options.quantity is None ==> match wallet.source {
                WalletSource::Key(_) => wallet.quantity == 1,
                WalletSource::Manifest(k) => k < quantities.len() && wallet.quantity
                    == quantities[k as int],
            }
        }),
{
    let keys = key_wallets(options);
    if i >= keys.len() {
        lemma_manifest_entry(options, quantities, i - keys.len());
    }
}

/// A wallet of the file is an entry of it, with the entry's quantity unless another was asked for.
proof fn lemma_manifest_entry(options: SnipeOptions, quantities: Seq<u64>, i: int)
    requires
        quantities.len() <= usize::MAX,
        0 <= i < manifest_wallets(options, quantities).len(),
    ensures
        ({
            let wallet = manifest_wallets(options, quantities)[i];
            &&& wallet.source matches WalletSource::Manifest(k)
            &&& k < quantities.len()
            &&& wallet.quantity == (match options.quantity {
                Some(asked) => asked,
                None => quantities[k as int],
            })
        }),
    decreases quantities.len(),
{
    if quantities.len() > 0 {
        let before = manifest_wallets(options, quantities.drop_last());
        if i < before.len() {
            lemma_manifest_entry(options, quantities.drop_last(), i);
        }
    }
}

/// Which wallets take part: first every key, in order; then, in the order of the file, every entry
/// whose index was named, or every entry where none was named; and nobody else.
pub proof fn law_wallets_that_take_part(options: SnipeOptions, quantities: Seq<u64>)
    requires
        quantities.len() <= usize::MAX,
    ensures
        ({
            let chosen = chosen_wallets(options, quantities);
            let n = options.key_count as int;
            &&& chosen.len() >= n
            &&& forall|i: int|
                0 <= i < n ==> (#[trigger] chosen[i]).source == WalletSource::Key(i as usize)
            &&& forall|i: int|
                n <= i < chosen.len() ==> ((#[trigger] chosen[i]).source matches
                    WalletSource::Manifest(k) && k < quantities.len() && (match
                    options.wallet_indices {
                    Some(named) => named@.len() == 0 || named@.contains(k),
                    None => true,
                }))
            &&& forall|i: int, j: int|
                n <= i < j < chosen.len() ==> (#[trigger] chosen[i]).source->Manifest_0 < (
                #[trigger] chosen[j]).source->Manifest_0
            &&& forall|k: usize|
                k < quantities.len() && (match options.wallet_indices {
                    Some(named) => named@.len() == 0 || named@.contains(k),
                    None => true,
                }) ==> #[trigger] takes_part(chosen, WalletSource::Manifest(k))
        }),
{
    let chosen = chosen_wallets(options, quantities);
    let keys = key_wallets(options);
    let filed = manifest_wallets(options, quantities);
    let n = options.key_count as int;
    assert(chosen == keys + filed);
    lemma_manifest_wallets(options, quantities);
    lemma_manifest_members(options, quantities);
    assert forall|i: int| n <= i < chosen.len() implies ((#[trigger] chosen[i]).source matches
        WalletSource::Manifest(k) && k < quantities.len() && (match options.wallet_indices {
        Some(named) => named@.len() == 0 || named@.contains(k),
        None => true,
    })) by {
        assert(chosen[i] == filed[i - n]);
    }
    assert forall|i: int, j: int| n <= i < j < chosen.len() implies (
    #[trigger] chosen[i]).source->Manifest_0 < (#[trigger] chosen[j]).source->Manifest_0 by {
        assert(chosen[i] == filed[i - n]);
        assert(chosen[j] == filed[j - n]);
    }
    assert forall|k: usize|
        k < quantities.len() && (match options.wallet_indices {
            Some(named) => named@.len() == 0 || named@.contains(k),
            None => true,
        }) implies #[trigger] takes_part(chosen, WalletSource::Manifest(k)) by {
        assert(takes_part(filed, WalletSource::Manifest(k)));
        let i = choose|i: int|
            0 <= i < filed.len() && (#[trigger] filed[i]).source == WalletSource::Manifest(k);
        assert(chosen[n + i].source == WalletSource::Manifest(k));
    }
}

/// Does the wallet from there take part?
pub open spec fn takes_part(chosen: Seq<WalletChoice>, source: WalletSource) -> bool {
    exists|i: int| 0 <= i < chosen.len() && (#[trigger] chosen[i]).source == source
}

/// The entries of the file that take part are those that were named, or all where none was.
proof fn lemma_manifest_members(options: SnipeOptions, quantities: Seq<u64>)
    requires
        quantities.len() <= usize::MAX,
    ensures
        forall|i: int|
            0 <= i < manifest_wallets(options, quantities).len() ==> ((
            #[trigger] manifest_wallets(options, quantities)[i]).source matches
                WalletSource::Manifest(k) && (match options.wallet_indices {
                Some(named) => named@.len() == 0 || named@.contains(k),
                None => true,
            })),
        forall|k: usize|
            k < quantities.len() && (match options.wallet_indices {
                Some(named) => named@.len() == 0 || named@.contains(k),
                None => true,
            }) ==> #[trigger] takes_part(
                manifest_wallets(options, quantities),
                WalletSource::Manifest(k),
            ),
    decreases quantities.len(),
{
    if quantities.len() > 0 {
        let init = quantities.drop_last();
        let before = manifest_wallets(options, init);
        let all = manifest_wallets(options, quantities);
        let last = (quantities.len() - 1) as usize;
        lemma_manifest_members(options, init);
        assert forall|k: usize|
            k < quantities.len() && (match options.wallet_indices {
                Some(named) => named@.len() == 0 || named@.contains(k),
                None => true,
            }) implies #[trigger] takes_part(all, WalletSource::Manifest(k)) by {
            if k < last {
                assert(takes_part(before, WalletSource::Manifest(k)));
                let i = choose|i: int|
                    0 <= i < before.len() && (#[trigger] before[i]).source
                        == WalletSource::Manifest(k);
                assert(all[i].source == WalletSource::Manifest(k));
            } else {
                assert(is_selected(options.wallet_indices, last as int));
                assert(all[before.len() as int].source == WalletSource::Manifest(k));
            }
        }
    }
}

/// The gas limit is the greater of what was asked for and what a transfer takes.
pub proof fn law_gas_limit_is_the_greater(asked: u64)
    ensures
        gas_limit_of(asked) >= asked,
        gas_limit_of(asked) >= 21_000,
        gas_limit_of(asked) == asked || gas_limit_of(asked) == 21_000,
{
}

/// What was not asked for comes from the chain's estimate; where there is none, from the base fee,
/// except that a maximum that was asked for goes with a priority fee of zero.
pub proof fn law_estimate_fills_the_rest(
    max_fee: U256,
    priority_fee: U256,
    estimate: FeeEstimate,
)
    ensures
        first_fee_step(None, None) is AskEstimate,
        first_fee_step(Some(max_fee), None) is AskEstimate,
        first_fee_step(None, Some(priority_fee)) is AskBaseFee,
        first_fee_step(Some(max_fee), Some(priority_fee)) matches FeeStep::Settled(fees)
            && fees.max_fee_per_gas@ == max_fee@ && fees.max_priority_fee_per_gas@ == priority_fee@,
        second_fee_step(None, Some(estimate)) matches FeeStep::Settled(fees)
            && fees.max_fee_per_gas@ == estimate.max_fee_per_gas@
            && fees.max_priority_fee_per_gas@ == estimate.max_priority_fee_per_gas@,
        second_fee_step(Some(max_fee), Some(estimate)) matches FeeStep::Settled(fees)
            && fees.max_fee_per_gas@ == max_fee@ && fees.max_priority_fee_per_gas@
            == estimate.max_priority_fee_per_gas@,
        second_fee_step(Some(max_fee), None) matches FeeStep::Settled(fees)
            && fees.max_fee_per_gas@ == max_fee@ && fees.max_priority_fee_per_gas@ == 0,
        second_fee_step(None, None) is AskBaseFee,
{
}

/// From the base fee, the maximum is twice it and the priority fee, wherever that fits.
pub proof fn law_base_fee_is_doubled(
    priority_fee: Option<U256>,
    base: Option<U256>,
    fees: FeeEstimate,
)
    requires
        fees_of_base(priority_fee, base, fees),
    ensures
        ({
            let base_value = match base {
                Some(b) => b@,
                None => 0,
            };
            let tip = match priority_fee {
                Some(p) => p@,
                None => 0,
            };
            &&& fees.max_priority_fee_per_gas@ == tip
            &&& base_value + base_value + tip < modulus() ==> fees.max_fee_per_gas@ == base_value
                + base_value + tip
        }),
{
    let total = amount_or_zero(base) * 2 + amount_or_zero(priority_fee);
    if total < modulus() {
        vstd::arithmetic::div_mod::lemma_small_mod(total, modulus());
    }
}

/// A wallet passes exactly where it holds the price and all the gas at the highest fee; one that
/// does not is told how much that is and what it holds.
pub proof fn law_funds_decide(
    address: Address,
    balance: U256,
    value: nat,
    gas_limit: nat,
    max_fee: nat,
    result: Result<U256, SnipeError>,
)
    requires
        is_funds_result(address, balance, value, gas_limit, max_fee, result),
    ensures
        result is Ok <==> value + gas_limit * max_fee < modulus() && balance@ >= value + gas_limit
            * max_fee,
        result matches Ok(required) ==> required@ == value + gas_limit * max_fee,
        gas_limit * max_fee >= modulus() ==> (result matches Err(SnipeError::InvalidGas(told)) && told@
            == "gas cost overflow"@),
        gas_limit * max_fee < modulus() && value + gas_limit * max_fee >= modulus() ==> (result
            matches Err(SnipeError::InvalidGas(told)) && told@ == "total cost overflow"@),
        value + gas_limit * max_fee < modulus() && balance@ < value + gas_limit * max_fee ==> (
        result matches Err(SnipeError::Underfunded { address: who, balance: held, required, affordable })
            && who@ == address@ && held@ == balance@ && required@ == value + gas_limit * max_fee
            && affordable@ == gwei_text(
            (if balance@ >= value {
                (balance@ - value) as nat
            } else {
                0nat
            }) / gas_limit,
        )),
{
}

/// The fee that an underfunded wallet is told covers the rest of its balance and no more.
pub proof fn law_affordable_fee_is_the_quotient(balance: nat, value: nat, gas_limit: nat)
    requires
        gas_limit > 0,
    ensures
        balance <= value ==> affordable_fee(balance, value, gas_limit) == 0,
        balance > value ==> affordable_fee(balance, value, gas_limit) * gas_limit <= balance - value
            < (affordable_fee(balance, value, gas_limit) + 1) * gas_limit,
{
    let rest = if balance >= value {
        (balance - value) as nat
    } else {
        0nat
    };
    let best = rest / gas_limit;
    vstd::arithmetic::div_mod::lemma_fundamental_div_mod(rest as int, gas_limit as int);
    assert(best * gas_limit == gas_limit * best) by (nonlinear_arith);
    assert((best + 1) * gas_limit == gas_limit * best + gas_limit) by (nonlinear_arith);
    if rest == 0 {
        vstd::arithmetic::div_mod::lemma_div_basics(gas_limit as int);
    }
}

/// The transaction of a plan carries the plan's call and value to the plan's contract, with the
/// account's next nonce and the fees, the limit and the chain of the snipe.
pub proof fn law_transaction_carries_the_plan(
    chain_id: u64,
    gas_limit: u64,
    fees: FeeEstimate,
    account: AccountState,
    plan: LocalMintPlan,
    transaction: Eip1559Transaction,
)
    requires
        carries_out(chain_id, gas_limit, fees, account, plan, transaction),
    ensures
        transaction.target@ == plan.to@,
        transaction.value@ == plan.value@,
        transaction.calldata@ == plan.data@,
        transaction.nonce == account.pending_nonce,
        transaction.max_fee_per_gas@ == fees.max_fee_per_gas@,
        transaction.max_priority_fee_per_gas@ == fees.max_priority_fee_per_gas@,
        transaction.gas_limit == gas_limit,
        transaction.chain_id == chain_id,
{
}

} // verus!
