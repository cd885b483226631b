//! A snipe from beginning to end.
//!
//! Each stage of a snipe is a type that says what is asked of the outside next, and its method takes
//! the outcome and gives the following stage. A caller that builds no stage by hand reaches one only
//! through those before it, and the last stage asks for proof that every wallet has signed. It
//! dispatches only once the moment has come.

use vstd::prelude::*;

use crate::arming::{
    is_dispatch, law_wallets_send_what_they_signed, plans_of, Arming, Minter, WalletBlast,
};
use crate::blast::{
    label_of, parse_endpoints, request_to, send_body, warm_connections, BlastRequest, RpcEndpoint,
    SignedTransaction,
};
use crate::chain::{AccountState, ChainError, FeeEstimate};
use crate::chains::law_known_chains;
use crate::endpoints::{
    candidate_urls, chosen_chain, expected_chain, is_candidate_result, is_probe_result,
    resolve_rpc_candidates, run_probe,
};
use crate::funding::{
    carries_out, chosen_wallets, cost, effective_gas_limit, fees_from_base, fees_from_estimate,
    fees_of_base, first_fee_step, gas_limit_of, is_funds_result, law_wallet_quantities,
    law_wallets_that_take_part, lemma_manifest_wallets, load_wallets, second_fee_step, start_fees, Eip1559Transaction, FeeStep, WalletChoice,
    WalletSource,
};
use crate::hexdata::{fixed_bytes, hex_text, Address};
use crate::locate::{
    is_locator_result, is_slug_result, resolve_nft_contract, resolve_slug, slug_url, Locator,
    SlugReply,
};
use crate::manifest::ManifestEntry;
use crate::rpc_url::{Url, UrlParts};
use crate::seadrop::{
    address_word, build_local_mint_plan, call_bytes, default_recipient_bytes, drop_of_words,
    fee_recipients_call, fetch_public_drop, holds_drop, law_fixed_addresses, law_plan_mints,
    listed_addresses, plan_of, public_drop_call, resolve_fee_recipient, LocalMintPlan, PublicDrop, SeadropError, GET_ALLOWED_FEE_RECIPIENTS,
    GET_PUBLIC_DROP,
};
use crate::snipe::{text_value, SnipeError, SnipeOptions};
use crate::text::contents;
use crate::timing::{
    choose_launch, fire_millis, fire_time, launch_at, law_fire_time_plus_lead_is_the_stage,
    next_wait, wait_until_fire, Launch, WaitAction, WaitPhase,
};
use crate::uint::{be_value, modulus, U256};

verus! {

/// What a snipe is asked to do, and what the environment sets as `RPC_URL`.
#[derive(Debug)]
pub struct Request {
    /// What it is asked to do.
    pub options: SnipeOptions,
    /// The endpoint of the environment.
    pub env_rpc: Option<String>,
}

impl Request {
    /// The endpoints to try.
    pub open spec fn candidates(self) -> Result<Seq<UrlParts>, Option<Seq<char>>> {
        candidate_urls(
            contents(self.options.rpc_urls@),
            chosen_chain(self.options),
            text_value(self.env_rpc),
        )
    }

    /// The chain that the endpoints have to serve.
    pub open spec fn expected_id(self) -> Option<u64> {
        match chosen_chain(self.options) {
            Some(profile) => Some(profile.id()),
            None => None,
        }
    }
}

/// The collection has to be looked up.
#[derive(Debug)]
pub struct LookingUp {
    /// What is asked.
    pub request: Request,
    /// The collection's name.
    pub slug: String,
    /// Where to look it up.
    pub url: String,
}

/// Every endpoint has to be asked for its chain.
#[derive(Debug)]
pub struct Probing {
    /// What is asked.
    pub request: Request,
    /// The collection's contract.
    pub nft: Address,
    /// The endpoints to ask.
    pub urls: Vec<Url>,
}

/// What naming a collection leads to.
#[derive(Debug)]
pub enum Located {
    /// The contract is known.
    Known(Probing),
    /// It has to be looked up.
    Unknown(LookingUp),
}

/// Where a snipe takes place.
#[derive(Debug)]
pub struct Site {
    /// The collection's contract.
    pub nft: Address,
    /// The chain.
    pub chain_id: u64,
    /// The endpoints, those that can be read from first.
    pub urls: Vec<Url>,
}

/// The public drop has to be read from the `SeaDrop` contract.
#[derive(Debug)]
pub struct ReadingDrop {
    /// What is asked.
    pub request: Request,
    /// Where.
    pub site: Site,
    /// The call.
    pub call: Vec<u8>,
}

/// The allowed fee recipients have to be read from the `SeaDrop` contract.
#[derive(Debug)]
pub struct ReadingRecipients {
    /// What is asked.
    pub request: Request,
    /// Where.
    pub site: Site,
    /// The drop.
    pub drop: PublicDrop,
    /// The call.
    pub call: Vec<u8>,
}

/// The wallets have to be loaded.
#[derive(Debug)]
pub struct LoadingWallets {
    /// What is asked.
    pub request: Request,
    /// Where.
    pub site: Site,
    /// The plan for one token.
    pub base: LocalMintPlan,
}

/// Everything but the fees is settled.
#[derive(Debug)]
pub struct Pricing {
    /// What is asked.
    pub request: Request,
    /// Where.
    pub site: Site,
    /// The plan for one token.
    pub base: LocalMintPlan,
    /// Where the wallets that take part come from.
    pub choices: Vec<WalletChoice>,
    /// The same wallets: who mints how much.
    pub minters: Vec<Minter>,
}

/// What is left to settle the fees.
#[derive(Debug)]
pub enum Priced {
    /// The chain has to be asked for an estimate.
    NeedsEstimate(Pricing),
    /// The chain has to be asked for the base fee of the latest block.
    NeedsBaseFee(Pricing),
    /// Nothing.
    Settled(Signing),
}

/// The wallets have to sign, one after the other.
#[derive(Debug)]
pub struct Signing {
    /// What is asked.
    pub request: Request,
    /// Where.
    pub site: Site,
    /// Where the wallets come from.
    pub choices: Vec<WalletChoice>,
    /// When the stage opens, in seconds since the epoch.
    pub start_time: u64,
    /// The transactions.
    pub arming: Arming,
}

/// Everything is signed; connections have to be opened, and the moment has to come.
#[derive(Debug)]
pub struct Ready {
    /// Fire at once?
    pub fire_now: bool,
    /// How long before the stage opens to fire, in milliseconds.
    pub early_fire_ms: u64,
    /// When to fire, in milliseconds since the epoch.
    pub fire_time: i64,
    /// The endpoints.
    pub endpoints: Vec<RpcEndpoint>,
    /// The transactions.
    pub arming: Arming,
}

/// How far the wait for the moment is.
#[derive(Clone, Copy, Debug, PartialEq, Eq, Structural)]
pub enum Progress {
    /// Nobody has looked at the clock yet.
    Launching,
    /// The clock said to wait.
    Waiting {
        /// What for.
        launch: Launch,
        /// How far.
        phase: WaitPhase,
    },
}

/// What a look at the clock leads to.
#[derive(Debug)]
pub enum Trigger {
    /// Do this, then look at the clock again. The first look only settles what to wait for.
    Hold {
        /// How far the wait is.
        progress: Progress,
        /// What to do.
        step: Option<WaitAction>,
    },
    /// Send everything now.
    Dispatch {
        /// Was the moment announced?
        announced: bool,
        /// What.
        blasts: Vec<WalletBlast>,
    },
}

/// Goes on with the collection's contract.
fn probe(request: Request, nft: Address) -> (next: Result<Probing, SnipeError>)
    ensures
        match next {
            Ok(probing) => {
                &&& probing.request == request
                &&& probing.nft == nft
                &&& is_candidate_result(request.candidates(), Ok(probing.urls))
            },
            Err(error) => is_candidate_result(request.candidates(), Err(error)),
        },
{
    let env_rpc = match &request.env_rpc {
        Some(text) => Some(text.as_str()),
        None => None,
    };
    match resolve_rpc_candidates(&request.options, env_rpc) {
        Ok(urls) => Ok(Probing { request, nft, urls }),
        Err(error) => Err(error),
    }
}

/// Is the collection named by this address?
pub open spec fn names_contract(request: Request, nft: Address) -> bool {
    is_locator_result(request.options.collection@, Ok(Locator::Contract(nft)))
}

/// Sets a snipe going: settles what the collection is, and, unless its name has to be looked up,
/// which endpoints to ask.
pub fn run_snipe(request: Request) -> (next: Result<Located, SnipeError>)
    ensures
        match next {
            Ok(Located::Known(probing)) => {
                &&& probing.request == request
                &&& names_contract(request, probing.nft)
                &&& is_candidate_result(request.candidates(), Ok(probing.urls))
            },
            Ok(Located::Unknown(looking)) => {
                &&& looking.request == request
                &&& is_locator_result(request.options.collection@, Ok(Locator::Slug(looking.slug)))
                &&& looking.url@ == "https://api.opensea.io/api/v2/collections/"@ + looking.slug@
            },
            Err(error) => {
                ||| is_locator_result(request.options.collection@, Err(error))
                ||| (exists|nft: Address| names_contract(request, nft)) && is_candidate_result(
                    request.candidates(),
                    Err(error),
                )
            },
        },
{
    match resolve_nft_contract(request.options.collection.as_str()) {
        Ok(Locator::Contract(nft)) => {
            assert(names_contract(request, nft));
            match probe(request, nft) {
                Ok(probing) => Ok(Located::Known(probing)),
                Err(error) => Err(error),
            }
        },
        Ok(Locator::Slug(slug)) => {
            let url = slug_url(slug.as_str());
            Ok(Located::Unknown(LookingUp { request, slug, url }))
        },
        Err(error) => Err(error),
    }
}

impl LookingUp {
    /// Is this the contract that a lookup told?
    pub open spec fn tells(self, reply: SlugReply, nft: Address) -> bool {
        is_slug_result(self.slug@, reply, Ok(nft))
    }

    /// The lookup is over.
    pub fn answered(self, reply: SlugReply) -> (next: Result<Probing, SnipeError>)
        ensures
            match next {
                Ok(probing) => {
                    &&& probing.request == self.request
                    &&& self.tells(reply, probing.nft)
                    &&& is_candidate_result(self.request.candidates(), Ok(probing.urls))
                },
                Err(error) => {
                    ||| is_slug_result(self.slug@, reply, Err(error))
                    ||| (exists|nft: Address| self.tells(reply, nft)) && is_candidate_result(
                        self.request.candidates(),
                        Err(error),
                    )
                },
            },
    {
        match resolve_slug(self.slug.as_str(), reply) {
            Ok(nft) => {
                assert(self.tells(reply, nft));
                probe(self.request, nft)
            },
            Err(error) => Err(error),
        }
    }
}

impl Probing {
    /// Every endpoint has been asked for its chain.
    pub fn answered(self, probes: Vec<(Url, Option<u64>)>) -> (next: Result<ReadingDrop, SnipeError>)
        ensures
            match next {
                Ok(reading) => {
                    &&& reading.request == self.request
                    &&& reading.site.nft == self.nft
                    &&& is_probe_result(
                        probes@,
                        self.request.expected_id(),
                        Ok((reading.site.chain_id, reading.site.urls)),
                    )
                    &&& reading.call@ == call_bytes(GET_PUBLIC_DROP@, address_word(self.nft@))
                },
                Err(error) => is_probe_result(probes@, self.request.expected_id(), Err(error)),
            },
    {
        let expected = match expected_chain(&self.request.options) {
            Some(profile) => Some(profile.chain_id()),
            None => None,
        };
        match run_probe(probes, expected) {
            Ok((chain_id, urls)) => Ok(
                ReadingDrop {
                    request: self.request,
                    site: Site { nft: self.nft, chain_id, urls },
                    call: public_drop_call(self.nft),
                },
            ),
            Err(error) => Err(error),
        }
    }
}

impl ReadingDrop {
    /// The public drop has been read. A collection without one has no public stage.
    pub fn answered(self, reply: Result<Vec<u8>, ChainError>) -> (next: Result<
        ReadingRecipients,
        SnipeError,
    >)
        ensures
            match reply {
                Err(error) => next == Err::<ReadingRecipients, SnipeError>(
                    SnipeError::Seadrop(SeadropError::Chain(error)),
                ),
                Ok(words) => if holds_drop(words@) {
                    &&& next is Ok
                    &&& next->Ok_0.request == self.request
                    &&& next->Ok_0.site == self.site
                    &&& drop_of_words(words@, next->Ok_0.drop)
                    &&& next->Ok_0.call@ == call_bytes(
                        GET_ALLOWED_FEE_RECIPIENTS@,
                        address_word(self.site.nft@),
                    )
                } else {
                    next == Err::<ReadingRecipients, SnipeError>(SnipeError::NoPublicStage)
                },
            },
    {
        match fetch_public_drop(reply) {
            Ok(Some(drop)) => {
                let call = fee_recipients_call(self.site.nft);
                Ok(ReadingRecipients { request: self.request, site: self.site, drop, call })
            },
            Ok(None) => Err(SnipeError::NoPublicStage),
            Err(error) => Err(SnipeError::Seadrop(error)),
        }
    }
}

/// Who gets the fee: the first allowed recipient, or the default where none is allowed and the drop
/// restricts none.
pub open spec fn recipient_of(allowed: Seq<Seq<u8>>, restricted: bool) -> Option<Seq<u8>> {
    if allowed.len() > 0 {
        Some(allowed[0])
    } else if restricted {
        None
    } else {
        Some(default_recipient_bytes())
    }
}

impl ReadingRecipients {
    /// The allowed fee recipients have been read. Without a possible one there is no public stage.
    pub fn answered(self, reply: Result<Vec<u8>, ChainError>) -> (next: Result<
        LoadingWallets,
        SnipeError,
    >)
        ensures
            match reply {
                Err(error) => next == Err::<LoadingWallets, SnipeError>(
                    SnipeError::Seadrop(SeadropError::Chain(error)),
                ),
                Ok(data) => match listed_addresses(data@) {
                    None => next == Err::<LoadingWallets, SnipeError>(
                        SnipeError::Seadrop(SeadropError::MalformedFeeRecipients),
                    ),
                    Some(allowed) => match recipient_of(
                        allowed,
                        self.drop.restrict_fee_recipients,
                    ) {
                        None => next == Err::<LoadingWallets, SnipeError>(
                            SnipeError::NoPublicStage,
                        ),
                        Some(recipient) => {
                            &&& next is Ok
                            &&& next->Ok_0.request == self.request
                            &&& next->Ok_0.site == self.site
                            &&& next->Ok_0.base.fee_recipient@ == recipient
                            &&& plan_of(
                                self.site.nft@,
                                1,
                                self.drop,
                                next->Ok_0.base.fee_recipient,
                                next->Ok_0.base,
                            )
                        },
                    },
                },
            },
    {
        let recipient = resolve_fee_recipient(reply, self.drop.restrict_fee_recipients);
        match build_local_mint_plan(self.site.nft, 1, Ok(Some(self.drop)), recipient) {
            Ok(Some(base)) => Ok(
                LoadingWallets { request: self.request, site: self.site, base },
            ),
            Ok(None) => Err(SnipeError::NoPublicStage),
            Err(error) => Err(SnipeError::Seadrop(error)),
        }
    }
}

/// The own quantity of each entry of a wallets file.
pub open spec fn own_quantities(entries: Seq<ManifestEntry>) -> Seq<u64> {
    Seq::new(entries.len(), |i: int| entries[i].quantity)
}

/// The address of a wallet, by where it comes from.
pub open spec fn address_of(
    source: WalletSource,
    keys: Seq<Address>,
    entries: Seq<ManifestEntry>,
) -> Address {
    match source {
        WalletSource::Key(i) => keys[i as int],
        WalletSource::Manifest(i) => entries[i as int].address,
    }
}

/// Are `minters` the chosen wallets, by address?
pub open spec fn minters_of(
    choices: Seq<WalletChoice>,
    keys: Seq<Address>,
    entries: Seq<ManifestEntry>,
    minters: Seq<Minter>,
) -> bool {
    &&& minters.len() == choices.len()
    &&& forall|i: int|
        0 <= i < choices.len() ==> {
            &&& (#[trigger] minters[i]).address == address_of(choices[i].source, keys, entries)
            &&& minters[i].quantity == choices[i].quantity
        }
}

/// The own quantities of a wallets file, where there is one and it can be read.
fn read_quantities(manifest: &Option<Result<Vec<ManifestEntry>, String>>) -> (quantities: Option<
    Result<Vec<u64>, String>,
>)
    ensures
        match *manifest {
            None => quantities is None,
            Some(Err(error)) => quantities == Some(Err::<Vec<u64>, String>(error)),
            Some(Ok(entries)) => {
                &&& quantities matches Some(Ok(list))
                &&& list@ == own_quantities(entries@)
            },
        },
{
    match manifest {
        None => None,
        Some(Err(error)) => Some(Err(error.clone())),
        Some(Ok(entries)) => {
            let mut list: Vec<u64> = Vec::new();
            let mut i: usize = 0;
            while i < entries.len()
                invariant
                    i <= entries@.len(),
                    list@ == own_quantities(entries@).take(i as int),
                decreases entries@.len() - i,
            {
                list.push(entries[i].quantity);
                i += 1;
                assert(own_quantities(entries@).take(i as int) == own_quantities(entries@).take(
                    i - 1,
                ).push(entries@[i - 1].quantity));
            }
            assert(own_quantities(entries@).take(i as int) == own_quantities(entries@));
            Some(Ok(list))
        },
    }
}

/// Finds the addresses of the chosen wallets.
fn find_minters(
    choices: &Vec<WalletChoice>,
    keys: &Vec<Address>,
    entries: &Vec<ManifestEntry>,
) -> (minters: Vec<Minter>)
    requires
        forall|i: int|
            0 <= i < choices@.len() ==> match (#[trigger] choices@[i]).source {
                WalletSource::Key(k) => k < keys@.len(),
                WalletSource::Manifest(k) => k < entries@.len(),
            },
    ensures
        minters_of(choices@, keys@, entries@, minters@),
{
    let mut minters: Vec<Minter> = Vec::new();
    let mut i: usize = 0;
    while i < choices.len()
        invariant
            i <= choices@.len(),
            forall|j: int|
                0 <= j < choices@.len() ==> match (#[trigger] choices@[j]).source {
                    WalletSource::Key(k) => k < keys@.len(),
                    WalletSource::Manifest(k) => k < entries@.len(),
                },
            minters_of(choices@.take(i as int), keys@, entries@, minters@),
        decreases choices@.len() - i,
    {
        let choice = choices[i];
        assert(choices@[i as int] == choice);
        let address = match choice.source {
            WalletSource::Key(k) => keys[k],
            WalletSource::Manifest(k) => entries[k].address,
        };
        minters.push(Minter { address, quantity: choice.quantity });
        i += 1;
    }
    assert(choices@.take(i as int) == choices@);
    minters
}

/// Is `signing` the stage that follows once the fees are settled?
pub open spec fn signs_next(pricing: Pricing, fees: FeeEstimate, signing: Signing) -> bool {
    &&& signing.request == pricing.request
    &&& signing.site == pricing.site
    &&& signing.choices == pricing.choices
    &&& signing.start_time == pricing.base.drop.start_time
    &&& signing.arming.well_formed()
    &&& signing.arming.chain_id == pricing.site.chain_id
    &&& signing.arming.gas_limit == gas_limit_of(pricing.request.options.gas_limit)
    &&& signing.arming.fees == fees
    &&& signing.arming.prepared@.len() == 0
    &&& plans_of(
        pricing.site.nft@,
        pricing.base.drop,
        pricing.base.fee_recipient,
        pricing.minters@,
        signing.arming.wallets@,
    )
}

/// Is `priced` what follows from that step towards the fees?
pub open spec fn is_priced(pricing: Pricing, step: FeeStep, priced: Priced) -> bool {
    match step {
        FeeStep::Settled(fees) => priced matches Priced::Settled(signing) && signs_next(
            pricing,
            fees,
            signing,
        ),
        FeeStep::AskEstimate => priced == Priced::NeedsEstimate(pricing),
        FeeStep::AskBaseFee => priced == Priced::NeedsBaseFee(pricing),
    }
}

impl Pricing {
    /// Goes on to the signatures.
    fn sign(self, fees: FeeEstimate) -> (signing: Signing)
        ensures
            signs_next(self, fees, signing),
    {
        let gas_limit: u64 = effective_gas_limit(self.request.options.gas_limit);
        let arming = Arming::plan(
            self.site.chain_id,
            gas_limit,
            fees,
            self.site.nft,
            &self.base,
            &self.minters,
        );
        Signing {
            request: self.request,
            site: self.site,
            choices: self.choices,
            start_time: self.base.drop.start_time,
            arming,
        }
    }

    /// Goes on with a step towards the fees.
    fn go_on(self, step: FeeStep) -> (priced: Priced)
        ensures
            is_priced(self, step, priced),
    {
        match step {
            FeeStep::Settled(fees) => Priced::Settled(self.sign(fees)),
            FeeStep::AskEstimate => Priced::NeedsEstimate(self),
            FeeStep::AskBaseFee => Priced::NeedsBaseFee(self),
        }
    }

    /// The chain has been asked for an estimate; where it gave none, for whatever reason, there may
    /// still be a way.
    pub fn estimated(self, estimate: Option<FeeEstimate>) -> (priced: Priced)
        ensures
            is_priced(
                self,
                second_fee_step(self.request.options.max_fee_per_gas, estimate),
                priced,
            ),
    {
        let step = fees_from_estimate(self.request.options.max_fee_per_gas, estimate);
        self.go_on(step)
    }

    /// The chain has been asked for the base fee of the latest block.
    pub fn based(self, base_fee: Result<Option<U256>, ChainError>) -> (next: Result<
        Signing,
        SnipeError,
    >)
        ensures
            match base_fee {
                Err(error) => next == Err::<Signing, SnipeError>(SnipeError::Chain(error)),
                Ok(base) => {
                    &&& next is Ok
                    &&& fees_of_base(
                        self.request.options.max_priority_fee_per_gas,
                        base,
                        next->Ok_0.arming.fees,
                    )
                    &&& signs_next(self, next->Ok_0.arming.fees, next->Ok_0)
                },
            },
    {
        match fees_from_base(self.request.options.max_priority_fee_per_gas, base_fee) {
            Ok(fees) => Ok(self.sign(fees)),
            Err(error) => Err(error),
        }
    }
}

impl LoadingWallets {
    /// The entries of the wallets file, where there is one and it can be read.
    pub open spec fn entries(manifest: Option<Result<Vec<ManifestEntry>, String>>) -> Seq<
        ManifestEntry,
    > {
        match manifest {
            Some(Ok(entries)) => entries@,
            _ => Seq::empty(),
        }
    }

    /// The wallets have been loaded: the addresses of the keys, or why one cannot be used, and what
    /// the wallets file holds, or why it cannot be read.
    pub fn loaded(
        self,
        keys: Result<Vec<Address>, String>,
        manifest: Option<Result<Vec<ManifestEntry>, String>>,
    ) -> (next: Result<Priced, SnipeError>)
        requires
            keys matches Ok(list) ==> list@.len() == self.request.options.key_count,
        ensures
            match (keys, manifest) {
                (Err(error), _) => next == Err::<Priced, SnipeError>(SnipeError::Wallet(error)),
                (Ok(_), Some(Err(error))) => next == Err::<Priced, SnipeError>(
                    SnipeError::Manifest(error),
                ),
                (Ok(list), _) => {
                    let entries = LoadingWallets::entries(manifest);
                    let chosen = chosen_wallets(self.request.options, own_quantities(entries));
                    if chosen.len() == 0 {
                        next == Err::<Priced, SnipeError>(SnipeError::NoWallets)
                    } else {
                        next is Ok && exists|pricing: Pricing|
                            #![trigger self.prices(chosen, list@, entries, pricing)]
                            self.prices(chosen, list@, entries, pricing) && is_priced(
                                pricing,
                                first_fee_step(
                                    self.request.options.max_fee_per_gas,
                                    self.request.options.max_priority_fee_per_gas,
                                ),
                                next->Ok_0,
                            )
                    }
                },
            },
    {
        let (key_error, addresses) = match keys {
            Ok(list) => (None, list),
            Err(error) => (Some(error), Vec::new()),
        };
        let quantities = read_quantities(&manifest);
        assert(own_quantities(Seq::empty()) == Seq::<u64>::empty());
        let choices = match load_wallets(&self.request.options, key_error, quantities) {
            Ok(choices) => choices,
            Err(error) => {
                return Err(error);
            },
        };
        let ghost listed = LoadingWallets::entries(manifest);
        let entries: Vec<ManifestEntry> = match manifest {
            Some(Ok(entries)) => entries,
            _ => Vec::new(),
        };
        assert(entries@ == listed);
        proof {
            let own = own_quantities(entries@);
            assert(entries.len() == own.len());
            let keyed = crate::funding::key_wallets(self.request.options);
            let filed = crate::funding::manifest_wallets(self.request.options, own);
            assert(choices@ == keyed + filed);
            lemma_manifest_wallets(self.request.options, own);
            assert forall|i: int| 0 <= i < choices@.len() implies match (
            #[trigger] choices@[i]).source {
                WalletSource::Key(k) => k < addresses@.len(),
                WalletSource::Manifest(k) => k < entries@.len(),
            } by {
                if i < keyed.len() {
                    assert(choices@[i] == keyed[i]);
                } else {
                    assert(choices@[i] == filed[i - keyed.len()]);
                }
            }
        }
        let minters = find_minters(&choices, &addresses, &entries);
        let max_fee = self.request.options.max_fee_per_gas;
        let priority_fee = self.request.options.max_priority_fee_per_gas;
        let pricing = Pricing {
            request: self.request,
            site: self.site,
            base: self.base,
            choices,
            minters,
        };
        assert(self.prices(
            chosen_wallets(self.request.options, own_quantities(listed)),
            addresses@,
            listed,
            pricing,
        ));
        let priced = pricing.go_on(start_fees(max_fee, priority_fee));
        Ok(priced)
    }

    /// Is `pricing` the stage that follows with the chosen wallets?
    pub open spec fn prices(
        self,
        chosen: Seq<WalletChoice>,
        keys: Seq<Address>,
        entries: Seq<ManifestEntry>,
        pricing: Pricing,
    ) -> bool {
        &&& pricing.request == self.request
        &&& pricing.site == self.site
        &&& pricing.base == self.base
        &&& pricing.choices@ == chosen
        &&& minters_of(chosen, keys, entries, pricing.minters@)
    }
}

impl Signing {
    /// Is `ready` the stage that follows once every wallet has signed?
    pub open spec fn readies(self, ready: Ready) -> bool {
        &&& ready.fire_now == self.request.options.fire_now
        &&& ready.early_fire_ms == self.request.options.early_fire_ms
        &&& ready.fire_time == fire_millis(self.start_time, self.request.options.early_fire_ms)
        &&& ready.arming == self.arming
        &&& ready.endpoints@.len() == self.site.urls@.len()
        &&& forall|i: int|
            0 <= i < self.site.urls@.len() ==> {
                &&& (#[trigger] ready.endpoints@[i]).url@ == self.site.urls@[i]@
                &&& ready.endpoints@[i].label@ == label_of(self.site.urls@[i])
            }
    }

    /// The next wallet that signs, and its address.
    pub fn next(&self) -> (wallet: Option<(usize, Address)>)
        requires
            self.arming.well_formed(),
        ensures
            self.arming.complete() ==> wallet is None,
            !self.arming.complete() ==> (wallet matches Some((index, address)) && index
                == self.arming.prepared@.len() && address
                == self.arming.wallets@[index as int].address),
    {
        match self.arming.next_wallet() {
            Some(index) => Some((index, self.arming.wallets[index].address)),
            None => None,
        }
    }

    /// The account of the next wallet has been read: gives what the wallet has to sign.
    pub fn account_read(&self, account: Result<AccountState, ChainError>) -> (transaction: Result<
        Eip1559Transaction,
        SnipeError,
    >)
        requires
            self.arming.well_formed(),
            !self.arming.complete(),
        ensures
            match account {
                Err(error) => transaction == Err::<Eip1559Transaction, SnipeError>(
                    SnipeError::Chain(error),
                ),
                Ok(state) => {
                    let wallet = self.arming.wallets@[self.arming.prepared@.len() as int];
                    let required = cost(
                        wallet.plan.value@,
                        self.arming.gas_limit as nat,
                        self.arming.fees.max_fee_per_gas@,
                    );
                    &&& transaction is Ok <==> required < modulus() && state.balance@ >= required
                    &&& transaction matches Ok(made) ==> carries_out(
                        self.arming.chain_id,
                        self.arming.gas_limit,
                        self.arming.fees,
                        state,
                        wallet.plan,
                        made,
                    )
                    &&& transaction matches Err(error) ==> is_funds_result(
                        wallet.address,
                        state.balance,
                        wallet.plan.value@,
                        self.arming.gas_limit as nat,
                        self.arming.fees.max_fee_per_gas@,
                        Err(error),
                    )
                },
            },
    {
        match account {
            Ok(state) => self.arming.next_transaction(state),
            Err(error) => Err(SnipeError::Chain(error)),
        }
    }

    /// The next wallet has signed.
    pub fn signed(&mut self, signed: Result<SignedTransaction, String>) -> (done: Result<
        (),
        SnipeError,
    >)
        requires
            old(self).arming.well_formed(),
            !old(self).arming.complete(),
        ensures
            final(self).request == old(self).request,
            final(self).site == old(self).site,
            final(self).choices == old(self).choices,
            final(self).start_time == old(self).start_time,
            final(self).arming.well_formed(),
            final(self).arming.chain_id == old(self).arming.chain_id,
            final(self).arming.gas_limit == old(self).arming.gas_limit,
            final(self).arming.fees == old(self).arming.fees,
            final(self).arming.wallets@ == old(self).arming.wallets@,
            match signed {
                Err(error) => {
                    &&& done == Err::<(), SnipeError>(SnipeError::Transaction(error))
                    &&& final(self).arming.prepared@ == old(self).arming.prepared@
                },
                Ok(transaction) => {
                    let prepared = final(self).arming.prepared@;
                    &&& done is Ok
                    &&& prepared.len() == old(self).arming.prepared@.len() + 1
                    &&& prepared.drop_last() == old(self).arming.prepared@
                    &&& prepared.last().blast.tx_hash == transaction.hash
                    &&& prepared.last().blast.body@ == send_body("0x"@ + hex_text(transaction.raw@))
                },
            },
    {
        match signed {
            Ok(transaction) => {
                self.arming.signed(&transaction);
                Ok(())
            },
            Err(error) => Err(SnipeError::Transaction(error)),
        }
    }

    /// Every wallet has signed; only the moment is left to wait for.
    pub fn ready(self) -> (ready: Ready)
        requires
            self.arming.well_formed(),
            self.arming.complete(),
        ensures
            self.readies(ready),
    {
        let early_fire_ms: u64 = self.request.options.early_fire_ms;
        Ready {
            fire_now: self.request.options.fire_now,
            early_fire_ms,
            fire_time: fire_time(self.start_time, early_fire_ms),
            endpoints: parse_endpoints(self.site.urls.as_slice()),
            arming: self.arming,
        }
    }
}

impl Ready {
    /// Is `trigger` what a look at the clock leads to?
    pub open spec fn triggers(self, progress: Progress, now: i64, trigger: Trigger) -> bool {
        match progress {
            Progress::Launching => {
                let launch = launch_at(self.fire_now, self.early_fire_ms, self.fire_time, now);
                if launch == Launch::Immediately {
                    trigger matches Trigger::Dispatch { announced, blasts } && !announced
                        && is_dispatch(self.arming, self.endpoints@, blasts@)
                } else {
                    trigger == (Trigger::Hold {
                        progress: Progress::Waiting { launch, phase: WaitPhase::Begin },
                        step: None,
                    })
                }
            },
            Progress::Waiting { launch, phase } => {
                let (next, action) = next_wait(phase, self.fire_time, now);
                match action {
                    WaitAction::Fire { announced: told } => {
                        trigger matches Trigger::Dispatch { announced, blasts } && announced == told
                            && is_dispatch(self.arming, self.endpoints@, blasts@)
                    },
                    _ => trigger == (Trigger::Hold {
                        progress: Progress::Waiting { launch, phase: next },
                        step: Some(action),
                    }),
                }
            },
        }
    }

    /// The requests that open a connection to every endpoint.
    pub fn warm(&self) -> (requests: Vec<BlastRequest>)
        ensures
            requests@.len() == self.endpoints@.len(),
            forall|i: int|
                0 <= i < self.endpoints@.len() ==> request_to(
                    self.endpoints@[i],
                    send_body("0x00"@),
                    #[trigger] requests@[i],
                ),
    {
        warm_connections(self.endpoints.as_slice())
    }

    /// Takes a look at the clock: either there is something to wait for, or everything is sent.
    pub fn look(&self, progress: Progress, now: i64) -> (trigger: Trigger)
        requires
            now >= 0,
            self.arming.well_formed(),
            self.arming.complete(),
        ensures
            self.triggers(progress, now, trigger),
    {
        match progress {
            Progress::Launching => {
                let launch = choose_launch(
                    self.fire_now,
                    self.early_fire_ms,
                    self.fire_time,
                    now,
                );
                if launch == Launch::Immediately {
                    let blasts = self.arming.dispatch(self.endpoints.as_slice());
                    Trigger::Dispatch { announced: false, blasts }
                } else {
                    Trigger::Hold {
                        progress: Progress::Waiting { launch, phase: WaitPhase::Begin },
                        step: None,
                    }
                }
            },
            Progress::Waiting { launch, phase } => {
                let (next, action) = wait_until_fire(phase, self.fire_time, now);
                match action {
                    WaitAction::Fire { announced } => {
                        let blasts = self.arming.dispatch(self.endpoints.as_slice());
                        Trigger::Dispatch { announced, blasts }
                    },
                    _ => Trigger::Hold {
                        progress: Progress::Waiting { launch, phase: next },
                        step: Some(action),
                    },
                }
            },
        }
    }
}

/// Nothing is sent before its time: a look at the clock sends only where the moment has come, or
/// where the snipe was told to fire at once without an early moment. And where the moment has come,
/// a look at the clock always sends.
pub proof fn law_dispatch_only_when_due(
    ready: Ready,
    progress: Progress,
    now: i64,
    trigger: Trigger,
)
    requires
        ready.triggers(progress, now, trigger),
    ensures
        trigger is Dispatch ==> now >= ready.fire_time || (progress is Launching && ready.fire_now
            && ready.early_fire_ms == 0),
        now >= ready.fire_time ==> trigger is Dispatch,
{
}

/// The chain that the endpoints have to serve is the chosen one.
pub proof fn law_chosen_chain_is_expected(request: Request)
    ensures
        request.options.chain is None ==> request.expected_id() is None,
        request.options.chain matches Some(key) ==> {
            &&& key@ == "ethereum"@ ==> request.expected_id() == Some(1u64)
            &&& key@ == "base"@ ==> request.expected_id() == Some(8453u64)
            &&& key@ == "robinhood"@ ==> request.expected_id() == Some(4663u64)
            &&& key@ != "ethereum"@ && key@ != "base"@ && key@ != "robinhood"@
                ==> request.expected_id() is None
        },
{
    if let Some(key) = request.options.chain {
        law_known_chains(key@, 1);
    }
}

/// The first allowed recipient gets the fee; without one the published default does, unless the drop
/// restricts its recipients.
pub proof fn law_recipient_of(allowed: Seq<Seq<u8>>, restricted: bool)
    ensures
        allowed.len() > 0 ==> recipient_of(allowed, restricted) == Some(allowed[0]),
        allowed.len() == 0 && restricted ==> recipient_of(allowed, restricted) is None,
        allowed.len() == 0 && !restricted ==> recipient_of(allowed, restricted) == fixed_bytes(
            "0x0000a26b00c1f0df003000390027140000faa719"@,
            20,
        ),
{
    law_fixed_addresses();
}

/// From the wallets to the calls: every wallet that takes part mints, in its place, with its own
/// address, and its call and its price are for the quantity that was asked for; without one, a key's
/// wallet mints one token and a file's wallet what its entry says. The gas limit, the chain and the
/// fees are the same for all.
pub proof fn law_every_wallet_mints_its_share(
    loading: LoadingWallets,
    keys: Seq<Address>,
    entries: Seq<ManifestEntry>,
    pricing: Pricing,
    fees: FeeEstimate,
    signing: Signing,
    i: int,
)
    requires
        entries.len() <= usize::MAX,
        keys.len() == loading.request.options.key_count,
        loading.prices(
            chosen_wallets(loading.request.options, own_quantities(entries)),
            keys,
            entries,
            pricing,
        ),
        signs_next(pricing, fees, signing),
        0 <= i < signing.arming.wallets@.len(),
    ensures
        ({
            let wallet = signing.arming.wallets@[i];
            let asked = loading.request.options.quantity;
            let quantity = be_value(wallet.plan.data@.subrange(100, 132));
            &&& signing.arming.wallets@.len() == chosen_wallets(
                loading.request.options,
                own_quantities(entries),
            ).len()
            &&& i < keys.len() ==> wallet.address == keys[i]
            &&& i < keys.len() && asked is None ==> quantity == 1
            &&& i >= keys.len() ==> exists|k: int|
                0 <= k < entries.len() && (#[trigger] entries[k]).address == wallet.address && (
                asked is None ==> quantity == entries[k].quantity)
            &&& asked matches Some(n) ==> quantity == n
            &&& wallet.plan.value@ == (loading.base.drop.mint_price@ * quantity) % modulus()
            &&& wallet.plan.data@.subrange(16, 36) == loading.site.nft@
            &&& wallet.plan.data@.subrange(48, 68) == loading.base.fee_recipient@
            &&& fixed_bytes("0x00005ea00ac477b1030ce78506496e8c2de24bf5"@, 20) == Some(
                wallet.plan.to@,
            )
            &&& signing.arming.fees == fees
            &&& signing.arming.chain_id == loading.site.chain_id
            &&& signing.arming.gas_limit >= loading.request.options.gas_limit
            &&& signing.arming.gas_limit >= 21_000
            &&& signing.start_time == loading.base.drop.start_time
        }),
{
    let own = own_quantities(entries);
    let options = loading.request.options;
    let chosen = chosen_wallets(options, own);
    law_wallet_quantities(options, own, i);
    law_wallets_that_take_part(options, own);
    assert(pricing.minters@[i].quantity == chosen[i].quantity);
    assert(pricing.minters@[i].address == address_of(chosen[i].source, keys, entries));
    law_plan_mints(
        loading.site.nft@,
        chosen[i].quantity,
        loading.base.drop,
        loading.base.fee_recipient,
        signing.arming.wallets@[i].plan,
    );
    if i < keys.len() {
        assert(chosen[i].source == WalletSource::Key(i as usize));
    } else {
        let k = chosen[i].source->Manifest_0 as int;
        assert(own[k] == entries[k].quantity);
        assert(entries[k].address == signing.arming.wallets@[i].address);
    }
}

/// What a look at the clock sends: for every wallet, to every endpoint, exactly what it signed.
pub proof fn law_dispatch_sends_everything(
    ready: Ready,
    progress: Progress,
    now: i64,
    trigger: Trigger,
    w: int,
    e: int,
)
    requires
        ready.triggers(progress, now, trigger),
        trigger is Dispatch,
        0 <= w < ready.arming.prepared@.len(),
        0 <= e < ready.endpoints@.len(),
    ensures
        trigger matches Trigger::Dispatch { announced: _, blasts } && blasts@.len()
            == ready.arming.prepared@.len() && blasts@[w].requests@.len() == ready.endpoints@.len()
            && blasts@[w].requests@[e].url@ == ready.endpoints@[e].url@
            && blasts@[w].requests@[e].body@ == ready.arming.prepared@[w].blast.body@
            && blasts@[w].tx_hash@ == ready.arming.prepared@[w].blast.tx_hash@,
{
    if let Trigger::Dispatch { announced: _, blasts } = trigger {
        law_wallets_send_what_they_signed(ready.arming, ready.endpoints@, blasts@, w, e);
    }
}

/// Before its time, a snipe that waits goes on waiting for the same thing; one that has just been
/// made ready begins to wait, under the name that its orders give it.
pub proof fn law_holding(ready: Ready, launch: Launch, phase: WaitPhase, now: i64, trigger: Trigger)
    requires
        now < ready.fire_time,
    ensures
        ready.triggers((Progress::Waiting { launch, phase }), now, trigger) ==> (trigger matches
            Trigger::Hold { progress: Progress::Waiting { launch: kept, phase: next }, step }
            && kept == launch && step is Some && !(next is Begin)),
        ready.triggers(Progress::Launching, now, trigger) && !ready.fire_now ==> trigger
            == (Trigger::Hold {
            progress: Progress::Waiting { launch: Launch::AwaitStage, phase: WaitPhase::Begin },
            step: None,
        }),
        ready.triggers(Progress::Launching, now, trigger) && ready.fire_now && ready.early_fire_ms
            > 0 ==> trigger == (Trigger::Hold {
            progress: Progress::Waiting {
                launch: Launch::AwaitEarlyWindow,
                phase: WaitPhase::Begin,
            },
            step: None,
        }),
{
}

/// What was asked for holds at the moment of firing: so many milliseconds before the stage opens,
/// through every endpoint in order, with everything that was signed, and at once only on the order
/// to.
pub proof fn law_ready_fires_as_asked(signing: Signing, ready: Ready, now: i64, trigger: Trigger)
    requires
        signing.readies(ready),
        signing.start_time * 1000 <= i64::MAX,
        signing.request.options.early_fire_ms <= i64::MAX,
        ready.triggers(Progress::Launching, now, trigger),
    ensures
        ready.fire_time + signing.request.options.early_fire_ms == signing.start_time * 1000,
        ready.arming.prepared@ == signing.arming.prepared@,
        ready.endpoints@.len() == signing.site.urls@.len(),
        forall|i: int|
            0 <= i < signing.site.urls@.len() ==> (#[trigger] ready.endpoints@[i]).url@
                == signing.site.urls@[i]@,
        now + signing.request.options.early_fire_ms >= signing.start_time * 1000
            ==> trigger is Dispatch,
        now + signing.request.options.early_fire_ms < signing.start_time * 1000
            && !signing.request.options.fire_now ==> trigger is Hold,
{
    law_fire_time_plus_lead_is_the_stage(
        signing.start_time,
        signing.request.options.early_fire_ms,
    );
}

/// What a snipe asks the chain before it signs: nothing where both fees were given, which are then
/// the fees; the base fee where only the priority fee was given; otherwise an estimate. After an
/// estimate it asks for the base fee only where there was none and no maximum was given.
pub proof fn law_chain_is_asked_for_missing_fees(
    pricing: Pricing,
    max_fee: Option<U256>,
    priority_fee: Option<U256>,
    estimate: Option<FeeEstimate>,
    first: Priced,
    second: Priced,
)
    requires
        is_priced(pricing, first_fee_step(max_fee, priority_fee), first),
        is_priced(pricing, second_fee_step(max_fee, estimate), second),
    ensures
        priority_fee is None ==> first == Priced::NeedsEstimate(pricing),
        priority_fee is Some && max_fee is None ==> first == Priced::NeedsBaseFee(pricing),
        max_fee matches Some(max) ==> (priority_fee matches Some(priority) ==> (first matches
            Priced::Settled(signing) && signing.arming.fees.max_fee_per_gas == max
            && signing.arming.fees.max_priority_fee_per_gas == priority)),
        max_fee is None && estimate is None ==> second == Priced::NeedsBaseFee(pricing),
        max_fee is Some || estimate is Some ==> second is Settled,
        max_fee matches Some(max) ==> (second matches Priced::Settled(signing)
            && signing.arming.fees.max_fee_per_gas == max),
        max_fee is None ==> (estimate matches Some(fees) ==> (second matches Priced::Settled(signing)
            && signing.arming.fees == fees)),
{
}

} // verus!
