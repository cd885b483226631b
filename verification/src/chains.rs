//! The chains that the sniper knows. Everything that depends on the chain stands here.

use vstd::prelude::*;

use crate::rpc_url::{names_host, plain_host};
use crate::text::{begins_with, same};

verus! {

/// A known chain.
#[derive(Clone, Copy, Debug, PartialEq, Eq, Structural)]
pub enum ChainProfile {
    /// Ethereum.
    Ethereum,
    /// Base.
    Base,
    /// Robinhood.
    Robinhood,
}

/// The explorer of a chain that is not known.
pub const DEFAULT_EXPLORER: &'static str = "https://basescan.org";

impl ChainProfile {
    /// The name by which a user chooses the chain.
    pub open spec fn key_text(self) -> Seq<char> {
        match self {
            ChainProfile::Ethereum => "ethereum"@,
            ChainProfile::Base => "base"@,
            ChainProfile::Robinhood => "robinhood"@,
        }
    }

    /// The number of the chain.
    pub open spec fn id(self) -> u64 {
        match self {
            ChainProfile::Ethereum => 1,
            ChainProfile::Base => 8453,
            ChainProfile::Robinhood => 4663,
        }
    }

    /// Where the chain's transactions can be looked at.
    pub open spec fn explorer_text(self) -> Seq<char> {
        match self {
            ChainProfile::Ethereum => "https://etherscan.io"@,
            ChainProfile::Base => "https://basescan.org"@,
            ChainProfile::Robinhood => "https://robinhoodchain.blockscout.com"@,
        }
    }

    /// The Alchemy host of the chain.
    pub open spec fn alchemy_text(self) -> Seq<char> {
        match self {
            ChainProfile::Ethereum => "eth-mainnet.g.alchemy.com"@,
            ChainProfile::Base => "base-mainnet.g.alchemy.com"@,
            ChainProfile::Robinhood => "robinhood-mainnet.g.alchemy.com"@,
        }
    }

    /// The public endpoints of the chain. A sequencer takes transactions faster than any other
    /// endpoint, but answers no reads.
    pub open spec fn public_texts(self) -> Seq<Seq<char>> {
        match self {
            ChainProfile::Ethereum => seq![
                "https://ethereum-rpc.publicnode.com"@,
                "https://eth.merkle.io"@,
                "https://cloudflare-eth.com"@,
            ],
            ChainProfile::Base => seq![
                "https://mainnet.base.org"@,
                "https://base-rpc.publicnode.com"@,
                "https://mainnet-sequencer.base.org"@,
            ],
            ChainProfile::Robinhood => seq![
                "https://rpc.mainnet.chain.robinhood.com"@,
                "https://sequencer.mainnet.chain.robinhood.com"@,
            ],
        }
    }

    /// The name by which a user chooses the chain.
    pub fn key(self) -> (key: &'static str)
        ensures
            key@ == self.key_text(),
    {
        match self {
            ChainProfile::Ethereum => "ethereum",
            ChainProfile::Base => "base",
            ChainProfile::Robinhood => "robinhood",
        }
    }

    /// The number of the chain.
    pub fn chain_id(self) -> (id: u64)
        ensures
            id == self.id(),
    {
        match self {
            ChainProfile::Ethereum => 1,
            ChainProfile::Base => 8453,
            ChainProfile::Robinhood => 4663,
        }
    }

    /// Where the chain's transactions can be looked at.
    pub fn explorer(self) -> (url: &'static str)
        ensures
            url@ == self.explorer_text(),
    {
        match self {
            ChainProfile::Ethereum => "https://etherscan.io",
            ChainProfile::Base => "https://basescan.org",
            ChainProfile::Robinhood => "https://robinhoodchain.blockscout.com",
        }
    }

    /// The Alchemy host of the chain.
    pub fn alchemy_host(self) -> (host: &'static str)
        ensures
            host@ == self.alchemy_text(),
    {
        match self {
            ChainProfile::Ethereum => "eth-mainnet.g.alchemy.com",
            ChainProfile::Base => "base-mainnet.g.alchemy.com",
            ChainProfile::Robinhood => "robinhood-mainnet.g.alchemy.com",
        }
    }

    /// The public endpoints of the chain.
    pub fn public_rpcs(self) -> (urls: Vec<&'static str>)
        ensures
            urls@.len() == self.public_texts().len(),
            forall|i: int| 0 <= i < urls@.len() ==> (#[trigger] urls@[i])@ == self.public_texts()[i],
    {
        match self {
            ChainProfile::Ethereum => vec![
                "https://ethereum-rpc.publicnode.com",
                "https://eth.merkle.io",
                "https://cloudflare-eth.com",
            ],
            ChainProfile::Base => vec![
                "https://mainnet.base.org",
                "https://base-rpc.publicnode.com",
                "https://mainnet-sequencer.base.org",
            ],
            ChainProfile::Robinhood => vec![
                "https://rpc.mainnet.chain.robinhood.com",
                "https://sequencer.mainnet.chain.robinhood.com",
            ],
        }
    }
}

/// The chain with that name.
pub open spec fn chain_for_key(key: Seq<char>) -> Option<ChainProfile> {
    if key == "ethereum"@ {
        Some(ChainProfile::Ethereum)
    } else if key == "base"@ {
        Some(ChainProfile::Base)
    } else if key == "robinhood"@ {
        Some(ChainProfile::Robinhood)
    } else {
        None
    }
}

/// The chain with that number.
pub open spec fn chain_for_id(id: u64) -> Option<ChainProfile> {
    if id == 1 {
        Some(ChainProfile::Ethereum)
    } else if id == 8453 {
        Some(ChainProfile::Base)
    } else if id == 4663 {
        Some(ChainProfile::Robinhood)
    } else {
        None
    }
}

/// Finds a chain by its name.
pub fn resolve_chain(key: &str) -> (profile: Option<ChainProfile>)
    ensures
        profile == chain_for_key(key@),
{
    if same(key, "ethereum") {
        Some(ChainProfile::Ethereum)
    } else if same(key, "base") {
        Some(ChainProfile::Base)
    } else if same(key, "robinhood") {
        Some(ChainProfile::Robinhood)
    } else {
        None
    }
}

/// Finds a chain by its number.
pub fn chain_by_id(chain_id: u64) -> (profile: Option<ChainProfile>)
    ensures
        profile == chain_for_id(chain_id),
{
    if chain_id == 1 {
        Some(ChainProfile::Ethereum)
    } else if chain_id == 8453 {
        Some(ChainProfile::Base)
    } else if chain_id == 4663 {
        Some(ChainProfile::Robinhood)
    } else {
        None
    }
}

/// The name of a chain, for reports.
pub open spec fn name_of_chain(chain_id: u64) -> Seq<char> {
    match chain_for_id(chain_id) {
        Some(profile) => profile.key_text(),
        None => "unknown"@,
    }
}

/// Names a chain, for reports.
pub fn chain_name(chain_id: u64) -> (name: &'static str)
    ensures
        name@ == name_of_chain(chain_id),
{
    match chain_by_id(chain_id) {
        Some(profile) => profile.key(),
        None => "unknown",
    }
}

/// Where a transaction can be looked at.
pub open spec fn explorer_link(chain_id: u64, tx_hash: Seq<char>) -> Seq<char> {
    let base = match chain_for_id(chain_id) {
        Some(profile) => profile.explorer_text(),
        None => DEFAULT_EXPLORER@,
    };
    base + "/tx/"@ + tx_hash
}

/// Tells where a transaction can be looked at.
pub fn explorer_url(chain_id: u64, tx_hash: &str) -> (url: String)
    ensures
        url@ == explorer_link(chain_id, tx_hash@),
{
    let base = match chain_by_id(chain_id) {
        Some(profile) => profile.explorer(),
        None => DEFAULT_EXPLORER,
    };
    let mut url = base.to_owned();
    url.append("/tx/");
    url.append(tx_hash);
    url
}

/// A chain is found by its own name and by its own number, so no two chains share either.
pub proof fn law_chains_are_found(profile: ChainProfile)
    ensures
        chain_for_key(profile.key_text()) == Some(profile),
        chain_for_id(profile.id()) == Some(profile),
{
    reveal_strlit("ethereum");
    reveal_strlit("base");
    reveal_strlit("robinhood");
    assert("ethereum"@[0] == 'e');
    assert("base"@[0] == 'b');
    assert("robinhood"@[0] == 'r');
}

/// The Alchemy host of every chain is a plain host.
pub proof fn lemma_alchemy_host(profile: ChainProfile)
    ensures
        plain_host(profile.alchemy_text()),
        profile.alchemy_text().len() < 0x100,
{
    reveal_strlit("eth-mainnet.g.alchemy.com");
    reveal_strlit("base-mainnet.g.alchemy.com");
    reveal_strlit("robinhood-mainnet.g.alchemy.com");
}

/// The host that the `i`th public endpoint of a chain names.
pub open spec fn public_host(profile: ChainProfile, i: int) -> Seq<char> {
    profile.public_texts()[i].skip(8)
}

/// Every public endpoint of a chain is a plain HTTPS address.
pub proof fn lemma_public_endpoints(profile: ChainProfile, i: int)
    requires
        0 <= i < profile.public_texts().len(),
    ensures
        names_host(profile.public_texts()[i], public_host(profile, i)),
        begins_with(profile.public_texts()[i], "https:"@),
{
    reveal_strlit("https://");
    reveal_strlit("https:");
    reveal_strlit("https://ethereum-rpc.publicnode.com");
    reveal_strlit("https://eth.merkle.io");
    reveal_strlit("https://cloudflare-eth.com");
    reveal_strlit("https://mainnet.base.org");
    reveal_strlit("https://base-rpc.publicnode.com");
    reveal_strlit("https://mainnet-sequencer.base.org");
    reveal_strlit("https://rpc.mainnet.chain.robinhood.com");
    reveal_strlit("https://sequencer.mainnet.chain.robinhood.com");
    let url = profile.public_texts()[i];
    let host = public_host(profile, i);
    assert(plain_host(host));
    assert(url == "https://"@ + host);
    assert(url.subrange(0, url.len() as int) == url);
    assert(url.subrange(0, 6) == "https:"@);
}

/// The names, numbers and addresses of the known chains, and that there are no others.
pub proof fn law_known_chains(key: Seq<char>, id: u64)
    ensures
        chain_for_key(key) matches Some(profile) ==> profile.key_text() == key,
        chain_for_key(key) is Some <==> key == "ethereum"@ || key == "base"@ || key == "robinhood"@,
        key == "ethereum"@ ==> (chain_for_key(key) matches Some(profile) && profile.id() == 1),
        key == "base"@ ==> (chain_for_key(key) matches Some(profile) && profile.id() == 8453),
        key == "robinhood"@ ==> (chain_for_key(key) matches Some(profile) && profile.id() == 4663),
        chain_for_id(id) matches Some(profile) ==> profile.id() == id,
        chain_for_id(id) is Some <==> id == 1 || id == 8453 || id == 4663,
        name_of_chain(1) == "ethereum"@,
        name_of_chain(8453) == "base"@,
        name_of_chain(4663) == "robinhood"@,
        id != 1 && id != 8453 && id != 4663 ==> name_of_chain(id) == "unknown"@,
{
    law_chains_are_found(ChainProfile::Ethereum);
    law_chains_are_found(ChainProfile::Base);
    law_chains_are_found(ChainProfile::Robinhood);
}

/// A transaction is looked up at its own chain's explorer, and at Base's where the chain is not
/// known.
pub proof fn law_explorer_links(id: u64, tx_hash: Seq<char>)
    ensures
        explorer_link(1, tx_hash) == "https://etherscan.io/tx/"@ + tx_hash,
        explorer_link(8453, tx_hash) == "https://basescan.org/tx/"@ + tx_hash,
        explorer_link(4663, tx_hash) == "https://robinhoodchain.blockscout.com/tx/"@ + tx_hash,
        id != 1 && id != 4663 ==> explorer_link(id, tx_hash) == "https://basescan.org/tx/"@
            + tx_hash,
{
    reveal_strlit("/tx/");
    reveal_strlit("https://etherscan.io");
    reveal_strlit("https://basescan.org");
    reveal_strlit("https://robinhoodchain.blockscout.com");
    reveal_strlit("https://etherscan.io/tx/");
    reveal_strlit("https://basescan.org/tx/");
    reveal_strlit("https://robinhoodchain.blockscout.com/tx/");
    assert("https://etherscan.io"@ + "/tx/"@ == "https://etherscan.io/tx/"@);
    assert("https://basescan.org"@ + "/tx/"@ == "https://basescan.org/tx/"@);
    assert("https://robinhoodchain.blockscout.com"@ + "/tx/"@
        == "https://robinhoodchain.blockscout.com/tx/"@);
}

/// The endpoints that a chain brings along, in the order in which they are tried.
pub proof fn law_public_endpoints()
    ensures
        ChainProfile::Ethereum.public_texts() == seq![
            "https://ethereum-rpc.publicnode.com"@,
            "https://eth.merkle.io"@,
            "https://cloudflare-eth.com"@,
        ],
        ChainProfile::Base.public_texts() == seq![
            "https://mainnet.base.org"@,
            "https://base-rpc.publicnode.com"@,
            "https://mainnet-sequencer.base.org"@,
        ],
        ChainProfile::Robinhood.public_texts() == seq![
            "https://rpc.mainnet.chain.robinhood.com"@,
            "https://sequencer.mainnet.chain.robinhood.com"@,
        ],
        ChainProfile::Ethereum.alchemy_text() == "eth-mainnet.g.alchemy.com"@,
        ChainProfile::Base.alchemy_text() == "base-mainnet.g.alchemy.com"@,
        ChainProfile::Robinhood.alchemy_text() == "robinhood-mainnet.g.alchemy.com"@,
{
}

} // verus!
