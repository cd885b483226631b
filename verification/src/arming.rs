//! The transactions of a snipe: planned, signed one by one, and dispatched only once all are signed.

use vstd::prelude::*;

use crate::blast::{
    blast_to_all, prepare_blast, request_to, send_body, BlastRequest, PreparedBlast, RpcEndpoint,
    SignedTransaction,
};
use crate::chain::{AccountState, FeeEstimate};
use crate::funding::{build_transaction, carries_out, cost, is_funds_result, Eip1559Transaction};
use crate::hexdata::{hex_text, Address, B256};
use crate::seadrop::{law_plan_mints, mint_plan, plan_of, LocalMintPlan, PublicDrop};
use crate::snipe::SnipeError;
use crate::uint::{be_value, modulus};

verus! {

/// A wallet and how many tokens it mints.
#[derive(Clone, Copy, Debug)]
pub struct Minter {
    /// The wallet's address.
    pub address: Address,
    /// How many tokens it mints.
    pub quantity: u64,
}

/// A wallet and what it is going to sign.
#[derive(Debug)]
pub struct PlannedWallet {
    /// The wallet's address.
    pub address: Address,
    /// What it is going to sign.
    pub plan: LocalMintPlan,
}

/// A wallet whose transaction is signed and serialised.
#[derive(Debug)]
pub struct PreparedWallet {
    /// The index of the wallet.
    pub index: usize,
    /// The wallet's address.
    pub address: Address,
    /// What is going to be sent.
    pub blast: PreparedBlast,
}

/// What is sent for one wallet.
#[derive(Debug)]
pub struct WalletBlast {
    /// The index of the wallet.
    pub index: usize,
    /// The wallet's address.
    pub address: Address,
    /// The hash that a taker answers with.
    pub tx_hash: B256,
    /// One request for every endpoint.
    pub requests: Vec<BlastRequest>,
}

/// The transactions of a snipe on their way to being signed.
#[derive(Debug)]
pub struct Arming {
    /// The chain.
    pub chain_id: u64,
    /// How much gas a transaction may use.
    pub gas_limit: u64,
    /// The fees.
    pub fees: FeeEstimate,
    /// The wallets, in order.
    pub wallets: Vec<PlannedWallet>,
    /// Those that have signed, in the same order.
    pub prepared: Vec<PreparedWallet>,
}

/// Is `planned` the list of what `minters` are going to sign?
pub open spec fn plans_of(
    nft: Seq<u8>,
    drop: PublicDrop,
    fee_recipient: Address,
    minters: Seq<Minter>,
    planned: Seq<PlannedWallet>,
) -> bool {
    &&& planned.len() == minters.len()
    &&& forall|i: int|
        0 <= i < minters.len() ==> {
            &&& (#[trigger] planned[i]).address == minters[i].address
            &&& plan_of(nft, minters[i].quantity as nat, drop, fee_recipient, planned[i].plan)
        }
}

impl Arming {
    /// Have the first wallets signed, in order?
    pub open spec fn well_formed(self) -> bool {
        &&& self.gas_limit > 0
        &&& self.prepared@.len() <= self.wallets@.len()
        &&& forall|i: int|
            0 <= i < self.prepared@.len() ==> {
                &&& (#[trigger] self.prepared@[i]).index == i
                &&& self.prepared@[i].address == self.wallets@[i].address
            }
    }

    /// Have all wallets signed?
    pub open spec fn complete(self) -> bool {
        self.prepared@.len() == self.wallets@.len()
    }

    /// Plans what every wallet is going to sign. Nothing is signed yet.
    pub fn plan(
        chain_id: u64,
        gas_limit: u64,
        fees: FeeEstimate,
        nft_contract: Address,
        base: &LocalMintPlan,
        minters: &Vec<Minter>,
    ) -> (arming: Arming)
        requires
            gas_limit > 0,
        ensures
            arming.well_formed(),
            arming.chain_id == chain_id,
            arming.gas_limit == gas_limit,
            arming.fees == fees,
            arming.prepared@.len() == 0,
            plans_of(
                nft_contract@,
                base.drop,
                base.fee_recipient,
                minters@,
                arming.wallets@,
            ),
    {
        let mut wallets: Vec<PlannedWallet> = Vec::new();
        let mut i: usize = 0;
        while i < minters.len()
            invariant
                i <= minters@.len(),
                plans_of(
                    nft_contract@,
                    base.drop,
                    base.fee_recipient,
                    minters@.take(i as int),
                    wallets@,
                ),
            decreases minters@.len() - i,
        {
            let minter = minters[i];
            let plan = mint_plan(nft_contract, minter.quantity, base.drop, base.fee_recipient);
            wallets.push(PlannedWallet { address: minter.address, plan });
            i += 1;
        }
        assert(minters@.take(i as int) == minters@);
        Arming { chain_id, gas_limit, fees, wallets, prepared: Vec::new() }
    }

    /// The index of the wallet that signs next.
    pub fn next_wallet(&self) -> (next: Option<usize>)
        requires
            self.well_formed(),
        ensures
            self.complete() ==> next is None,
            !self.complete() ==> (next matches Some(index) && index == self.prepared@.len()),
    {
        if self.prepared.len() < self.wallets.len() {
            Some(self.prepared.len())
        } else {
            None
        }
    }

    /// The transaction that the next wallet signs, given the state of its account. A wallet that
    /// cannot pay ends the snipe.
    pub fn next_transaction(&self, account: AccountState) -> (transaction: Result<
        Eip1559Transaction,
        SnipeError,
    >)
        requires
            self.well_formed(),
            !self.complete(),
        ensures
            ({
                let wallet = self.wallets@[self.prepared@.len() as int];
                let required = cost(
                    wallet.plan.value@,
                    self.gas_limit as nat,
                    self.fees.max_fee_per_gas@,
                );
                &&& transaction is Ok <==> required < modulus() && account.balance@ >= required
                &&& transaction matches Ok(made) ==> carries_out(
                    self.chain_id,
                    self.gas_limit,
                    self.fees,
                    account,
                    wallet.plan,
                    made,
                )
                &&& transaction matches Err(error) ==> is_funds_result(
                    wallet.address,
                    account.balance,
                    wallet.plan.value@,
                    self.gas_limit as nat,
                    self.fees.max_fee_per_gas@,
                    Err(error),
                )
            }),
    {
        let wallet = &self.wallets[self.prepared.len()];
        build_transaction(
            self.chain_id,
            self.gas_limit,
            self.fees,
            wallet.address,
            account,
            &wallet.plan,
        )
    }

    /// Takes the signed transaction of the next wallet and makes the request that broadcasts it.
    pub fn signed(&mut self, signed: &SignedTransaction)
        requires
            old(self).well_formed(),
            !old(self).complete(),
        ensures
            final(self).well_formed(),
            final(self).chain_id == old(self).chain_id,
            final(self).gas_limit == old(self).gas_limit,
            final(self).fees == old(self).fees,
            final(self).wallets@ == old(self).wallets@,
            final(self).prepared@.len() == old(self).prepared@.len() + 1,
            final(self).prepared@.drop_last() == old(self).prepared@,
            final(self).prepared@.last().blast.tx_hash == signed.hash,
            final(self).prepared@.last().blast.body@ == send_body("0x"@ + hex_text(signed.raw@)),
    {
        let index: usize = self.prepared.len();
        let address = self.wallets[index].address;
        self.prepared.push(PreparedWallet { index, address, blast: prepare_blast(signed) });
        assert(self.prepared@.drop_last() == old(self).prepared@);
    }

    /// Everything that is sent at the moment of firing: for every wallet, one request to every
    /// endpoint. Nothing is sent before every wallet has signed.
    pub fn dispatch(&self, endpoints: &[RpcEndpoint]) -> (blasts: Vec<WalletBlast>)
        requires
            self.well_formed(),
            self.complete(),
        ensures
            is_dispatch(*self, endpoints@, blasts@),
    {
        let mut blasts: Vec<WalletBlast> = Vec::new();
        let mut i: usize = 0;
        while i < self.prepared.len()
            invariant
                i <= self.prepared@.len(),
                self.well_formed(),
                blasts@.len() == i,
                forall|w: int|
                    0 <= w < i ==> is_blast_of(
                        self.prepared@[w],
                        endpoints@,
                        #[trigger] blasts@[w],
                    ),
            decreases self.prepared@.len() - i,
        {
            let wallet = &self.prepared[i];
            blasts.push(
                WalletBlast {
                    index: wallet.index,
                    address: wallet.address,
                    tx_hash: wallet.blast.tx_hash,
                    requests: blast_to_all(&wallet.blast, endpoints),
                },
            );
            i += 1;
        }
        blasts
    }
}

/// Is `blast` what is sent for a wallet: its prepared request, to every endpoint?
pub open spec fn is_blast_of(
    wallet: PreparedWallet,
    endpoints: Seq<RpcEndpoint>,
    blast: WalletBlast,
) -> bool {
    &&& blast.index == wallet.index
    &&& blast.address == wallet.address
    &&& blast.tx_hash == wallet.blast.tx_hash
    &&& blast.requests@.len() == endpoints.len()
    &&& forall|e: int|
        0 <= e < endpoints.len() ==> request_to(
            endpoints[e],
            wallet.blast.body@,
            #[trigger] blast.requests@[e],
        )
}

/// Is `blasts` what is sent at the moment of firing?
pub open spec fn is_dispatch(
    arming: Arming,
    endpoints: Seq<RpcEndpoint>,
    blasts: Seq<WalletBlast>,
) -> bool {
    &&& blasts.len() == arming.prepared@.len()
    &&& forall|w: int|
        0 <= w < blasts.len() ==> is_blast_of(
            arming.prepared@[w],
            endpoints,
            #[trigger] blasts[w],
        )
}

/// A dispatch misses no wallet and no endpoint: every wallet of the snipe, in its place, is sent to
/// every endpoint, and all endpoints get the same body.
pub proof fn law_dispatch_is_exhaustive(
    arming: Arming,
    endpoints: Seq<RpcEndpoint>,
    blasts: Seq<WalletBlast>,
    w: int,
    e: int,
    f: int,
)
    requires
        arming.well_formed(),
        arming.complete(),
        is_dispatch(arming, endpoints, blasts),
        0 <= w < arming.wallets@.len(),
        0 <= e < endpoints.len(),
        0 <= f < endpoints.len(),
    ensures
        blasts.len() == arming.wallets@.len(),
        blasts[w].index == w,
        blasts[w].address == arming.wallets@[w].address,
        blasts[w].requests@[e].url@ == endpoints[e].url@,
        blasts[w].requests@[e].body@ == blasts[w].requests@[f].body@,
{
    assert(is_blast_of(arming.prepared@[w], endpoints, blasts[w]));
    assert(request_to(endpoints[e], arming.prepared@[w].blast.body@, blasts[w].requests@[e]));
    assert(request_to(endpoints[f], arming.prepared@[w].blast.body@, blasts[w].requests@[f]));
}

/// What a wallet sends is what was prepared for it: every endpoint gets the prepared body under its
/// own name, and a taker has to answer with the hash of that very transaction.
pub proof fn law_wallets_send_what_they_signed(
    arming: Arming,
    endpoints: Seq<RpcEndpoint>,
    blasts: Seq<WalletBlast>,
    w: int,
    e: int,
)
    requires
        is_dispatch(arming, endpoints, blasts),
        0 <= w < arming.prepared@.len(),
        0 <= e < endpoints.len(),
    ensures
        blasts.len() == arming.prepared@.len(),
        blasts[w].tx_hash@ == arming.prepared@[w].blast.tx_hash@,
        blasts[w].address@ == arming.prepared@[w].address@,
        blasts[w].requests@.len() == endpoints.len(),
        blasts[w].requests@[e].url@ == endpoints[e].url@,
        blasts[w].requests@[e].label@ == endpoints[e].label@,
        blasts[w].requests@[e].body@ == arming.prepared@[w].blast.body@,
{
    assert(is_blast_of(arming.prepared@[w], endpoints, blasts[w]));
    assert(request_to(endpoints[e], arming.prepared@[w].blast.body@, blasts[w].requests@[e]));
}

/// Every wallet plans its own mint: its address in its place, its own quantity in the call and in
/// the price, and the same collection and fee recipient for all.
pub proof fn law_wallets_plan_their_own_mint(
    nft: Seq<u8>,
    drop: PublicDrop,
    fee_recipient: Address,
    minters: Seq<Minter>,
    planned: Seq<PlannedWallet>,
    w: int,
)
    requires
        nft.len() == 20,
        plans_of(nft, drop, fee_recipient, minters, planned),
        0 <= w < minters.len(),
    ensures
        planned.len() == minters.len(),
        planned[w].address@ == minters[w].address@,
        planned[w].plan.value@ == (drop.mint_price@ * (minters[w].quantity as nat)) % modulus(),
        planned[w].plan.data@.subrange(16, 36) == nft,
        planned[w].plan.data@.subrange(48, 68) == fee_recipient@,
        be_value(planned[w].plan.data@.subrange(100, 132)) == minters[w].quantity,
{
    assert(planned[w].address == minters[w].address);
    law_plan_mints(nft, minters[w].quantity, drop, fee_recipient, planned[w].plan);
}

} // verus!
