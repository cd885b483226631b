//! Which endpoints a snipe uses.

use vstd::prelude::*;

use crate::chains::{
    chain_for_key, chain_name, lemma_alchemy_host, lemma_public_endpoints, name_of_chain,
    resolve_chain, ChainProfile,
};
use crate::rpc_url::{
    is_safe, is_sequencer, law_safe_addresses, names_host, parts, url_parts, validate_rpc_url, Url,
    UrlParts,
};
use crate::snipe::{prefixed, SnipeError, SnipeOptions};
use crate::text::{contains, contents, has_part, occurs_at, trim, trimmed};

verus! {

/// What follows the name of an endpoint that may not be used.
pub const MUST_USE_HTTPS: &'static str = " must use HTTPS, except for an HTTP loopback endpoint";

/// What follows an entry that is neither a URL nor a key of a known chain.
pub const NOT_A_URL: &'static str = " is not a URL; pass --chain to expand a bare Alchemy key";

/// The chain that was chosen, where it is known.
pub open spec fn chosen_chain(options: SnipeOptions) -> Option<ChainProfile> {
    match options.chain {
        Some(key) => chain_for_key(key@),
        None => None,
    }
}

/// Finds the chain that was chosen.
pub fn expected_chain(options: &SnipeOptions) -> (profile: Option<ChainProfile>)
    ensures
        profile == chosen_chain(*options),
{
    match &options.chain {
        Some(key) => resolve_chain(key.as_str()),
        None => None,
    }
}

/// The address that an Alchemy key stands for.
pub open spec fn alchemy_url(profile: ChainProfile, key: Seq<char>) -> Seq<char> {
    "https://"@ + profile.alchemy_text() + "/v2/"@ + key
}

/// What an address comes to that stands in full: itself, where it can be used; otherwise what the
/// error tells.
pub open spec fn full_url(address: Seq<char>, complaint: Seq<char>) -> Result<UrlParts, Seq<char>> {
    match url_parts(address) {
        Some(url) => if is_safe(url) {
            Ok(url)
        } else {
            Err(complaint)
        },
        None => Err(address),
    }
}

/// What one entry of the list of endpoints comes to: nothing where it is blank, an address where it
/// is one that can be used or an Alchemy key of the chosen chain, and otherwise what the error tells.
pub open spec fn entry_url(raw: Seq<char>, chain: Option<ChainProfile>) -> Result<
    Option<UrlParts>,
    Seq<char>,
> {
    let entry = trimmed(raw);
    if entry.len() == 0 {
        Ok(None)
    } else if has_part(entry, "://"@) {
        match full_url(entry, entry + MUST_USE_HTTPS@) {
            Ok(url) => Ok(Some(url)),
            Err(told) => Err(told),
        }
    } else {
        match chain {
            Some(profile) => match url_parts(alchemy_url(profile, entry)) {
                Some(url) => Ok(Some(url)),
                None => Err(entry),
            },
            None => Err(entry + NOT_A_URL@),
        }
    }
}

/// What a list of endpoints comes to; the first entry that cannot be used decides.
pub open spec fn entry_urls(raws: Seq<Seq<char>>, chain: Option<ChainProfile>) -> Result<
    Seq<UrlParts>,
    Seq<char>,
>
    decreases raws.len(),
{
    if raws.len() == 0 {
        Ok(Seq::empty())
    } else {
        match entry_urls(raws.drop_last(), chain) {
            Ok(before) => match entry_url(raws.last(), chain) {
                Ok(Some(url)) => Ok(before.push(url)),
                Ok(None) => Ok(before),
                Err(told) => Err(told),
            },
            Err(told) => Err(told),
        }
    }
}

/// What the endpoint of the environment comes to: at most one address.
pub open spec fn environment_urls(raw: Option<Seq<char>>) -> Result<Seq<UrlParts>, Seq<char>> {
    match raw {
        Some(text) => {
            let entry = trimmed(text);
            if entry.len() == 0 {
                Ok(Seq::empty())
            } else {
                match full_url(entry, "RPC_URL"@ + MUST_USE_HTTPS@) {
                    Ok(url) => Ok(seq![url]),
                    Err(told) => Err(told),
                }
            }
        },
        None => Ok(Seq::empty()),
    }
}

/// The public endpoints of a chain.
pub open spec fn public_urls(profile: ChainProfile) -> Seq<UrlParts> {
    Seq::new(profile.public_texts().len(), |i: int| url_parts(profile.public_texts()[i])->0)
}

/// The endpoints to try: those of the list; where it has none, the one of the environment; where
/// there is none, the public ones of the chosen chain. An error tells which entry cannot be used,
/// or, without a text, that nothing is left to try.
pub open spec fn candidate_urls(
    raws: Seq<Seq<char>>,
    chain: Option<ChainProfile>,
    environment: Option<Seq<char>>,
) -> Result<Seq<UrlParts>, Option<Seq<char>>> {
    match entry_urls(raws, chain) {
        Err(told) => Err(Some(told)),
        Ok(listed) => if listed.len() > 0 {
            Ok(listed)
        } else {
            match environment_urls(environment) {
                Err(told) => Err(Some(told)),
                Ok(set) => if set.len() > 0 {
                    Ok(set)
                } else {
                    match chain {
                        Some(profile) => Ok(public_urls(profile)),
                        None => Err(None),
                    }
                },
            }
        },
    }
}

/// Is `result` what `expected` says?
pub open spec fn is_candidate_result(
    expected: Result<Seq<UrlParts>, Option<Seq<char>>>,
    result: Result<Vec<Url>, SnipeError>,
) -> bool {
    match expected {
        Ok(urls) => result is Ok && parts(result->Ok_0@) == urls,
        Err(Some(told)) => result matches Err(SnipeError::InvalidRpc(text)) && text@ == told,
        Err(None) => result == Err::<Vec<Url>, SnipeError>(SnipeError::NoRpcEndpoints),
    }
}

/// Takes an address that stands in full, given what the parser makes of it: it has to parse, and
/// requests have to be allowed to go there.
pub fn accept_url(parsed: Option<Url>, address: &str, complaint: &str) -> (url: Result<
    Url,
    SnipeError,
>)
    ensures
        match parsed {
            Some(found) => if is_safe(found@) {
                url == Ok::<Url, SnipeError>(found)
            } else {
                url matches Err(SnipeError::InvalidRpc(told)) && told@ == complaint@
            },
            None => url matches Err(SnipeError::InvalidRpc(told)) && told@ == address@,
        },
{
    match parsed {
        Some(found) => if validate_rpc_url(&found) {
            Ok(found)
        } else {
            Err(SnipeError::InvalidRpc(complaint.to_owned()))
        },
        None => Err(SnipeError::InvalidRpc(address.to_owned())),
    }
}

/// The address that an Alchemy key stands for on a chain. Any key but an enormous one makes an
/// address, on the chain's host.
pub fn expand_key(profile: ChainProfile, key: &str) -> (url: Option<Url>)
    ensures
        url matches Some(found) ==> url_parts(alchemy_url(profile, key@)) == Some(found@),
        url is None <==> url_parts(alchemy_url(profile, key@)) is None,
        url matches Some(found) ==> is_safe(found@),
        key@.len() <= 0xff_0000 ==> url is Some && url->0@.2 == Some(profile.alchemy_text()),
{
    let mut address = "https://".to_owned();
    address.append(profile.alchemy_host());
    address.append("/v2/");
    address.append(key);
    proof {
        reveal_strlit("https://");
        reveal_strlit("https:");
        reveal_strlit("/v2/");
        assert(address@.subrange(0, 6) == "https:"@);
        lemma_alchemy_host(profile);
        let host = profile.alchemy_text();
        assert(address@.subrange(0, 8 + host.len() as int) == "https://"@ + host);
        assert(key@.len() <= 0xff_0000 ==> names_host(address@, host));
    }
    Url::parse(address.as_str())
}

/// Turns one entry of the list of endpoints into an address.
fn resolve_entry(raw: &str, chain: Option<ChainProfile>) -> (url: Result<Option<Url>, SnipeError>)
    ensures
        match entry_url(raw@, chain) {
            Ok(Some(parts)) => url is Ok && url->Ok_0 is Some && url->Ok_0->0@ == parts,
            Ok(None) => url is Ok && url->Ok_0 is None,
            Err(told) => url matches Err(SnipeError::InvalidRpc(text)) && text@ == told,
        },
        url matches Ok(Some(found)) ==> is_safe(found@),
{
    let entry = trim(raw);
    if entry.is_empty() {
        return Ok(None);
    }
    if contains(entry, "://") {
        let complaint = prefixed(entry, MUST_USE_HTTPS);
        return match accept_url(Url::parse(entry), entry, complaint.as_str()) {
            Ok(url) => Ok(Some(url)),
            Err(error) => Err(error),
        };
    }
    match chain {
        Some(profile) => match expand_key(profile, entry) {
            Some(url) => Ok(Some(url)),
            None => Err(SnipeError::InvalidRpc(entry.to_owned())),
        },
        None => Err(SnipeError::InvalidRpc(prefixed(entry, NOT_A_URL))),
    }
}

/// Settles which endpoints to try. `env_rpc` is what the environment sets as `RPC_URL`. There is at
/// least one, and requests may go to all of them: over HTTPS, or over HTTP to the machine itself.
pub fn resolve_rpc_candidates(options: &SnipeOptions, env_rpc: Option<&str>) -> (urls: Result<
    Vec<Url>,
    SnipeError,
>)
    ensures
        is_candidate_result(
            candidate_urls(
                contents(options.rpc_urls@),
                chosen_chain(*options),
                match env_rpc {
                    Some(text) => Some(text@),
                    None => None,
                },
            ),
            urls,
        ),
        urls matches Ok(found) ==> found@.len() > 0 && forall|i: int|
            0 <= i < found@.len() ==> is_safe((#[trigger] found@[i])@),
{
    let profile = expected_chain(options);
    let ghost raws = contents(options.rpc_urls@);
    let mut urls: Vec<Url> = Vec::new();
    let mut i: usize = 0;
    assert(raws.take(0) == Seq::<Seq<char>>::empty());
    assert(parts(urls@) == Seq::<UrlParts>::empty());
    while i < options.rpc_urls.len()
        invariant
            i <= options.rpc_urls@.len(),
            raws == contents(options.rpc_urls@),
            profile == chosen_chain(*options),
            forall|j: int| 0 <= j < urls@.len() ==> is_safe((#[trigger] urls@[j])@),
            entry_urls(raws.take(i as int), profile) == Ok::<Seq<UrlParts>, Seq<char>>(
                parts(urls@),
            ),
        decreases options.rpc_urls@.len() - i,
    {
        let ghost next = raws.take(i + 1);
        let ghost before = parts(urls@);
        assert(next.drop_last() == raws.take(i as int));
        match resolve_entry(options.rpc_urls[i].as_str(), profile) {
            Ok(Some(url)) => {
                urls.push(url);
                assert(parts(urls@) == before.push(url@));
            },
            Ok(None) => {},
            Err(error) => {
                proof {
                    lemma_first_error_decides(raws, profile, i + 1);
                }
                return Err(error);
            },
        }
        i += 1;
    }
    assert(raws.take(i as int) == raws);
    if urls.len() > 0 {
        return Ok(urls);
    }
    if let Some(text) = env_rpc {
        let entry = trim(text);
        if !entry.is_empty() {
            let complaint = prefixed("RPC_URL", MUST_USE_HTTPS);
            return match accept_url(Url::parse(entry), entry, complaint.as_str()) {
                Ok(url) => {
                    urls.push(url);
                    assert(parts(urls@) == seq![url@]);
                    Ok(urls)
                },
                Err(error) => Err(error),
            };
        }
    }
    match profile {
        Some(profile) => {
            let texts = profile.public_rpcs();
            let mut k: usize = 0;
            while k < texts.len()
                invariant
                    k <= texts@.len(),
                    texts@.len() == profile.public_texts().len(),
                    forall|j: int|
                        0 <= j < texts@.len() ==> (#[trigger] texts@[j])@
                            == profile.public_texts()[j],
                    forall|j: int| 0 <= j < urls@.len() ==> is_safe((#[trigger] urls@[j])@),
                    parts(urls@) == public_urls(profile).take(k as int),
                decreases texts@.len() - k,
            {
                proof {
                    lemma_public_endpoints(profile, k as int);
                }
                let ghost before = parts(urls@);
                let url = Url::parse(texts[k]).unwrap();
                urls.push(url);
                assert(parts(urls@) == before.push(url@));
                k += 1;
                assert(public_urls(profile).take(k as int) == public_urls(profile).take(k - 1).push(
                    public_urls(profile)[k - 1],
                ));
            }
            assert(public_urls(profile).take(k as int) == public_urls(profile));
            Ok(urls)
        },
        None => Err(SnipeError::NoRpcEndpoints),
    }
}

/// An error among the first entries is the error of the whole list.
proof fn lemma_first_error_decides(raws: Seq<Seq<char>>, chain: Option<ChainProfile>, n: int)
    requires
        0 <= n <= raws.len(),
        entry_urls(raws.take(n), chain) is Err,
    ensures
        entry_urls(raws, chain) == entry_urls(raws.take(n), chain),
    decreases raws.len(),
{
    if n == raws.len() {
        assert(raws.take(n) == raws);
    } else {
        assert(raws.drop_last().take(n) == raws.take(n));
        lemma_first_error_decides(raws.drop_last(), chain, n);
    }
}

/// The endpoints of the list win over the one of the environment, and that one wins over the public
/// endpoints of the chain.
pub proof fn law_explicit_endpoints_win(
    raws: Seq<Seq<char>>,
    chain: Option<ChainProfile>,
    environment: Option<Seq<char>>,
)
    ensures
        entry_urls(raws, chain) matches Ok(listed) ==> (listed.len() > 0 ==> candidate_urls(
            raws,
            chain,
            environment,
        ) == Ok::<Seq<UrlParts>, Option<Seq<char>>>(listed)),
        entry_urls(raws, chain) matches Ok(listed) ==> (environment_urls(environment) matches Ok(set)
            ==> (listed.len() == 0 && set.len() > 0 ==> candidate_urls(raws, chain, environment)
            == Ok::<Seq<UrlParts>, Option<Seq<char>>>(set))),
{
}

/// The endpoints that can be read from, then the sequencers, each in the order that they had.
pub open spec fn ordered(working: Seq<(Url, u64)>) -> Seq<(Url, u64)> {
    working.filter(|probe: (Url, u64)| !is_sequencer(probe.0@)) + working.filter(
        |probe: (Url, u64)| is_sequencer(probe.0@),
    )
}

/// Moves the sequencers behind the endpoints that can be read from, so that reads go to the first
/// endpoint.
pub fn order_endpoints(working: Vec<(Url, u64)>) -> (endpoints: Vec<(Url, u64)>)
    ensures
        endpoints@ == ordered(working@),
{
    let mut reads: Vec<(Url, u64)> = Vec::new();
    let mut sends: Vec<(Url, u64)> = Vec::new();
    let ghost all = working@;
    let ghost read = |probe: (Url, u64)| !is_sequencer(probe.0@);
    let ghost send = |probe: (Url, u64)| is_sequencer(probe.0@);
    proof {
        reveal(Seq::filter);
        assert(all.take(0) == Seq::<(Url, u64)>::empty());
    }
    for probe in it: working.into_iter()
        invariant
            it.seq() == all,
            read == (|probe: (Url, u64)| !is_sequencer(probe.0@)),
            send == (|probe: (Url, u64)| is_sequencer(probe.0@)),
            reads@ == all.take(it.index() as int).filter(read),
            sends@ == all.take(it.index() as int).filter(send),
    {
        proof {
            reveal(Seq::filter);
            let next = all.take(it.index() + 1);
            assert(next.drop_last() == all.take(it.index() as int));
            assert(next.last() == probe);
        }
        if probe.0.names_sequencer() {
            sends.push(probe);
        } else {
            reads.push(probe);
        }
    }
    assert(all.take(all.len() as int) == all);
    reads.append(&mut sends);
    reads
}

/// The endpoints that answered, with the chain that they serve.
pub open spec fn answered(probes: Seq<(Url, Option<u64>)>) -> Seq<(Url, u64)>
    decreases probes.len(),
{
    if probes.len() == 0 {
        Seq::empty()
    } else {
        let before = answered(probes.drop_last());
        match probes.last().1 {
            Some(chain_id) => before.push((probes.last().0, chain_id)),
            None => before,
        }
    }
}

/// Those that serve the expected chain; all of them where none is expected.
pub open spec fn on_chain(working: Seq<(Url, u64)>, expected: Option<u64>) -> Seq<(Url, u64)> {
    match expected {
        Some(chain_id) => working.filter(|probe: (Url, u64)| probe.1 == chain_id),
        None => working,
    }
}

/// The addresses alone.
pub open spec fn addresses(working: Seq<(Url, u64)>) -> Seq<Url> {
    Seq::new(working.len(), |i: int| working[i].0)
}

/// Do all of them serve that chain?
pub open spec fn all_serve(working: Seq<(Url, u64)>, chain_id: u64) -> bool {
    forall|i: int| 0 <= i < working.len() ==> (#[trigger] working[i]).1 == chain_id
}

/// Is `second` the first chain that is not `first`?
pub open spec fn first_other(working: Seq<(Url, u64)>, first: u64, second: u64) -> bool {
    exists|k: int|
        0 <= k < working.len() && (#[trigger] working[k]).1 == second && second != first && all_serve(
            working.take(k),
            first,
        )
}

/// The sequencers that did not answer. Their silence says nothing: they answer no reads at all.
pub open spec fn silent_sequencers(probes: Seq<(Url, Option<u64>)>) -> Seq<Url>
    decreases probes.len(),
{
    if probes.len() == 0 {
        Seq::empty()
    } else {
        let before = silent_sequencers(probes.drop_last());
        if probes.last().1 is None && is_sequencer(probes.last().0@) {
            before.push(probes.last().0)
        } else {
            before
        }
    }
}

/// The endpoints to use: those that serve the chain, sequencers last, and then the sequencers that
/// did not answer.
pub open spec fn probed_urls(probes: Seq<(Url, Option<u64>)>, expected: Option<u64>) -> Seq<Url> {
    addresses(ordered(on_chain(answered(probes), expected))) + silent_sequencers(probes)
}

/// Is `result` what probing comes to?
pub open spec fn is_probe_result(
    probes: Seq<(Url, Option<u64>)>,
    expected: Option<u64>,
    result: Result<(u64, Vec<Url>), SnipeError>,
) -> bool {
    let working = on_chain(answered(probes), expected);
    if answered(probes).len() == 0 {
        result matches Err(SnipeError::NoWorkingRpc { count }) && count == probes.len()
    } else if working.len() == 0 {
        result matches Err(SnipeError::NoEndpointForChain { chain, chain_id }) && Some(chain_id)
            == expected && chain@ == name_of_chain(chain_id)
    } else if all_serve(working, working[0].1) {
        result matches Ok((chain_id, urls)) && chain_id == working[0].1 && urls@ == probed_urls(
            probes,
            expected,
        )
    } else {
        result matches Err(SnipeError::ChainMismatch { first, second }) && first == working[0].1
            && first_other(working, first, second)
    }
}

/// Settles, from what the candidates answered when asked for their chain, which chain to use and
/// through which endpoints. One that did not answer is dropped unless it is a sequencer, which is
/// kept for sending; one of another chain than the expected one is dropped. At least one has to
/// serve the chain, and those that answered have to agree.
pub fn run_probe(probes: Vec<(Url, Option<u64>)>, expected_chain_id: Option<u64>) -> (result: Result<
    (u64, Vec<Url>),
    SnipeError,
>)
    ensures
        is_probe_result(probes@, expected_chain_id, result),
{
    let count: usize = probes.len();
    let ghost all = probes@;
    let mut any: bool = false;
    let mut working: Vec<(Url, u64)> = Vec::new();
    let mut silent: Vec<Url> = Vec::new();
    proof {
        reveal(Seq::filter);
        assert(all.take(0) == Seq::<(Url, Option<u64>)>::empty());
    }
    for probe in it: probes.into_iter()
        invariant
            it.seq() == all,
            any == (answered(all.take(it.index() as int)).len() > 0),
            working@ == on_chain(answered(all.take(it.index() as int)), expected_chain_id),
            silent@ == silent_sequencers(all.take(it.index() as int)),
    {
        let ghost before = answered(all.take(it.index() as int));
        proof {
            reveal(Seq::filter);
            let next = all.take(it.index() + 1);
            assert(next.drop_last() == all.take(it.index() as int));
            assert(next.last() == probe);
        }
        let (url, answer) = probe;
        if let Some(chain_id) = answer {
            any = true;
            let wanted = match expected_chain_id {
                Some(expected) => chain_id == expected,
                None => true,
            };
            assert(before.push((url, chain_id)).drop_last() == before);
            if wanted {
                working.push((url, chain_id));
            }
        } else if url.names_sequencer() {
            silent.push(url);
        }
    }
    assert(all.take(all.len() as int) == all);
    if !any {
        return Err(SnipeError::NoWorkingRpc { count });
    }
    if let Some(expected) = expected_chain_id {
        if working.len() == 0 {
            let chain = chain_name(expected).to_owned();
            return Err(SnipeError::NoEndpointForChain { chain, chain_id: expected });
        }
    }
    let chain_id: u64 = working[0].1;
    let mut i: usize = 0;
    while i < working.len()
        invariant
            i <= working@.len(),
            all == probes@,
            answered(all).len() > 0,
            working@ == on_chain(answered(all), expected_chain_id),
            working@.len() > 0,
            chain_id == working@[0].1,
            all_serve(working@.take(i as int), chain_id),
        decreases working@.len() - i,
    {
        let other: u64 = working[i].1;
        if other != chain_id {
            assert(first_other(working@, chain_id, other)) by {
                assert(working@[i as int].1 == other);
            }
            assert(!all_serve(working@, chain_id)) by {
                assert(working@[i as int].1 != chain_id);
            }
            return Err(SnipeError::ChainMismatch { first: chain_id, second: other });
        }
        i += 1;
        assert(working@.take(i as int) == working@.take(i - 1).push(working@[i - 1]));
    }
    assert(working@.take(i as int) == working@);
    let endpoints = order_endpoints(working);
    let ghost found = endpoints@;
    let mut urls: Vec<Url> = Vec::new();
    for endpoint in it: endpoints.into_iter()
        invariant
            it.seq() == found,
            urls@ == addresses(found).take(it.index() as int),
    {
        urls.push(endpoint.0);
        assert(addresses(found).take(it.index() + 1) == addresses(found).take(
            it.index() as int,
        ).push(endpoint.0));
    }
    assert(addresses(found).take(found.len() as int) == addresses(found));
    urls.append(&mut silent);
    Ok((chain_id, urls))
}

/// Is the endpoint at `i` in a list of probes a sequencer?
pub open spec fn sequencer_at(working: Seq<(Url, u64)>, i: int) -> bool {
    is_sequencer(working[i].0@)
}

/// Every item of a filtered list passes the filter and stands in the list.
proof fn lemma_filtered(s: Seq<(Url, u64)>, keep: spec_fn((Url, u64)) -> bool)
    ensures
        forall|i: int| 0 <= i < s.filter(keep).len() ==> keep(#[trigger] s.filter(keep)[i]),
        (exists|i: int| 0 <= i < s.len() && keep(#[trigger] s[i])) ==> s.filter(keep).len() > 0,
    decreases s.len(),
{
    reveal(Seq::filter);
    if s.len() > 0 {
        lemma_filtered(s.drop_last(), keep);
        if exists|i: int| 0 <= i < s.len() && keep(#[trigger] s[i]) {
            let i = choose|i: int| 0 <= i < s.len() && keep(#[trigger] s[i]);
            if i < s.len() - 1 {
                assert(keep(s.drop_last()[i]));
            }
        }
    }
}

/// No endpoint that can be read from stands behind a sequencer, and the first one can be read from
/// wherever any can.
pub proof fn law_sequencers_come_last(working: Seq<(Url, u64)>)
    ensures
        forall|i: int, j: int|
            0 <= i < j < ordered(working).len() && sequencer_at(ordered(working), i)
                ==> sequencer_at(ordered(working), j),
        (exists|i: int| 0 <= i < working.len() && !sequencer_at(working, i)) ==> ordered(
            working,
        ).len() > 0 && !sequencer_at(ordered(working), 0),
{
    let read = |probe: (Url, u64)| !is_sequencer(probe.0@);
    let send = |probe: (Url, u64)| is_sequencer(probe.0@);
    lemma_filtered(working, read);
    lemma_filtered(working, send);
    let reads = working.filter(read);
    let sends = working.filter(send);
    assert(ordered(working) == reads + sends);
    assert forall|i: int, j: int|
        0 <= i < j < ordered(working).len() && sequencer_at(
            ordered(working),
            i,
        ) implies sequencer_at(ordered(working), j) by {
        if j < reads.len() {
            assert(read(reads[i]));
        } else {
            assert(send(sends[j - reads.len()]));
        }
    }
    if exists|i: int| 0 <= i < working.len() && !sequencer_at(working, i) {
        let i = choose|i: int| 0 <= i < working.len() && !sequencer_at(working, i);
        assert(read(working[i]));
        assert(read(reads[0]));
    }
}

/// A sequencer that did not answer is kept, wherever it stands among the candidates.
pub proof fn law_silent_sequencers_are_kept(
    probes: Seq<(Url, Option<u64>)>,
    expected: Option<u64>,
    i: int,
)
    requires
        0 <= i < probes.len(),
        probes[i].1 is None,
        is_sequencer(probes[i].0@),
    ensures
        probed_urls(probes, expected).contains(probes[i].0),
{
    let served = addresses(ordered(on_chain(answered(probes), expected)));
    let silent = silent_sequencers(probes);
    lemma_silent_sequencers(probes);
    assert(silent.contains(probes[i].0));
    let k = choose|k: int| 0 <= k < silent.len() && silent[k] == probes[i].0;
    assert(probed_urls(probes, expected)[served.len() + k] == probes[i].0);
}

/// The silent sequencers are sequencers, and all of those that did not answer.
proof fn lemma_silent_sequencers(probes: Seq<(Url, Option<u64>)>)
    ensures
        forall|k: int|
            0 <= k < silent_sequencers(probes).len() ==> is_sequencer(
                (#[trigger] silent_sequencers(probes)[k])@,
            ),
        forall|i: int|
            0 <= i < probes.len() && (#[trigger] probes[i]).1 is None && is_sequencer(probes[i].0@)
                ==> silent_sequencers(probes).contains(probes[i].0),
    decreases probes.len(),
{
    if probes.len() > 0 {
        let init = probes.drop_last();
        let before = silent_sequencers(init);
        let silent = silent_sequencers(probes);
        lemma_silent_sequencers(init);
        assert forall|i: int|
            0 <= i < probes.len() && (#[trigger] probes[i]).1 is None && is_sequencer(
                probes[i].0@,
            ) implies silent.contains(probes[i].0) by {
            if i < init.len() {
                assert(init[i] == probes[i]);
                assert(before.contains(probes[i].0));
                let k = choose|k: int| 0 <= k < before.len() && before[k] == probes[i].0;
                assert(silent[k] == probes[i].0);
            } else {
                assert(silent[before.len() as int] == probes[i].0);
            }
        }
    }
}

/// Among the endpoints that are used, none that can be read from stands behind a sequencer.
pub proof fn law_used_sequencers_come_last(
    probes: Seq<(Url, Option<u64>)>,
    expected: Option<u64>,
    i: int,
    j: int,
)
    requires
        0 <= i < j < probed_urls(probes, expected).len(),
        is_sequencer(probed_urls(probes, expected)[i]@),
    ensures
        is_sequencer(probed_urls(probes, expected)[j]@),
{
    let working = on_chain(answered(probes), expected);
    let served = ordered(working);
    law_sequencers_come_last(working);
    lemma_silent_sequencers(probes);
    if j < served.len() {
        assert(sequencer_at(served, i));
        assert(sequencer_at(served, j));
    } else {
        assert(probed_urls(probes, expected)[j] == silent_sequencers(probes)[j - served.len()]);
    }
}

/// Ordering the endpoints loses none and adds none.
pub proof fn law_ordering_keeps_endpoints(working: Seq<(Url, u64)>)
    ensures
        ordered(working).to_multiset() == working.to_multiset(),
    decreases working.len(),
{
    broadcast use vstd::seq_lib::group_to_multiset_ensures;

    reveal(Seq::filter);
    let read = |probe: (Url, u64)| !is_sequencer(probe.0@);
    let send = |probe: (Url, u64)| is_sequencer(probe.0@);
    let reads = working.filter(read);
    let sends = working.filter(send);
    vstd::seq_lib::lemma_multiset_commutative(reads, sends);
    assert(ordered(working) == reads + sends);
    if working.len() == 0 {
        assert(ordered(working) == working);
    } else {
        let init = working.drop_last();
        let last = working.last();
        law_ordering_keeps_endpoints(init);
        vstd::seq_lib::lemma_multiset_commutative(init.filter(read), init.filter(send));
        assert(working == init.push(last));
        assert(ordered(init) == init.filter(read) + init.filter(send));
        assert(working.to_multiset() == init.to_multiset().insert(last));
        if is_sequencer(last.0@) {
            assert(sends == init.filter(send).push(last));
            assert(reads == init.filter(read));
            assert(sends.to_multiset() == init.filter(send).to_multiset().insert(last));
        } else {
            assert(reads == init.filter(read).push(last));
            assert(sends == init.filter(send));
            assert(reads.to_multiset() == init.filter(read).to_multiset().insert(last));
        }
        assert(ordered(working).to_multiset() == ordered(init).to_multiset().insert(last));
    }
}

/// What an entry comes to that is an address in full: the address, where it parses and is safe to
/// use; the entry and the reason, where it is not safe; the entry alone, where it does not parse.
pub proof fn law_full_entries(raw: Seq<char>, chain: Option<ChainProfile>)
    requires
        has_part(trimmed(raw), "://"@),
    ensures
        url_parts(trimmed(raw)) is None ==> entry_url(raw, chain) == Err::<
            Option<UrlParts>,
            Seq<char>,
        >(trimmed(raw)),
        url_parts(trimmed(raw)) matches Some(url) ==> {
            &&& url.1 == "https"@ ==> entry_url(raw, chain) == Ok::<Option<UrlParts>, Seq<char>>(
                Some(url),
            )
            &&& url.1 != "https"@ && url.1 != "http"@ ==> entry_url(raw, chain) == Err::<
                Option<UrlParts>,
                Seq<char>,
            >(trimmed(raw) + " must use HTTPS, except for an HTTP loopback endpoint"@)
            &&& entry_url(raw, chain) matches Ok(found) ==> found == Some(url) && is_safe(url)
        },
{
    law_safe_addresses(url_parts(trimmed(raw))->0);
    reveal_strlit("://");
    if trimmed(raw).len() == 0 {
        let k = choose|k: int| occurs_at(trimmed(raw), "://"@, k);
        assert(false);
    }
}

/// What an entry comes to that is no address: a key of the chosen chain, put behind its host; and
/// without a chain an error that says so. A blank entry comes to nothing.
pub proof fn law_key_entries(raw: Seq<char>, profile: ChainProfile)
    requires
        !has_part(trimmed(raw), "://"@),
    ensures
        trimmed(raw).len() == 0 ==> entry_url(raw, None) == Ok::<Option<UrlParts>, Seq<char>>(None)
            && entry_url(raw, Some(profile)) == Ok::<Option<UrlParts>, Seq<char>>(None),
        trimmed(raw).len() > 0 ==> entry_url(raw, None) == Err::<Option<UrlParts>, Seq<char>>(
            trimmed(raw) + " is not a URL; pass --chain to expand a bare Alchemy key"@,
        ),
        trimmed(raw).len() > 0 ==> ({
            let address = "https://"@ + profile.alchemy_text() + "/v2/"@ + trimmed(raw);
            &&& url_parts(address) matches Some(url) ==> entry_url(raw, Some(profile)) == Ok::<
                Option<UrlParts>,
                Seq<char>,
            >(Some(url))
            &&& url_parts(address) is None ==> entry_url(raw, Some(profile)) == Err::<
                Option<UrlParts>,
                Seq<char>,
            >(trimmed(raw))
        }),
{
}

/// The list keeps its order: one more entry adds its address at the end, or nothing where it is
/// blank; and the first entry that cannot be used is the one that is told.
pub proof fn law_entries_keep_their_order(
    raws: Seq<Seq<char>>,
    next: Seq<char>,
    chain: Option<ChainProfile>,
)
    ensures
        entry_urls(Seq::empty(), chain) == Ok::<Seq<UrlParts>, Seq<char>>(Seq::empty()),
        entry_urls(raws, chain) matches Err(told) ==> entry_urls(raws.push(next), chain) == Err::<
            Seq<UrlParts>,
            Seq<char>,
        >(told),
        entry_urls(raws, chain) matches Ok(before) ==> {
            &&& entry_url(next, chain) matches Err(told) ==> entry_urls(raws.push(next), chain)
                == Err::<Seq<UrlParts>, Seq<char>>(told)
            &&& entry_url(next, chain) matches Ok(found) ==> entry_urls(raws.push(next), chain)
                == Ok::<Seq<UrlParts>, Seq<char>>(
                match found {
                    Some(url) => before.push(url),
                    None => before,
                },
            )
        },
{
    assert(raws.push(next).drop_last() == raws);
}

/// Every address that a list of full addresses comes to is safe to use.
pub proof fn law_listed_addresses_are_safe(
    raws: Seq<Seq<char>>,
    chain: Option<ChainProfile>,
    i: int,
)
    requires
        forall|k: int|
            0 <= k < raws.len() ==> has_part(trimmed(#[trigger] raws[k]), "://"@) || trimmed(
                raws[k],
            ).len() == 0,
        entry_urls(raws, chain) is Ok,
        0 <= i < entry_urls(raws, chain)->Ok_0.len(),
    ensures
        is_safe(entry_urls(raws, chain)->Ok_0[i]),
    decreases raws.len(),
{
    if raws.len() > 0 {
        let init = raws.drop_last();
        let before = entry_urls(init, chain)->Ok_0;
        assert(trimmed(raws[raws.len() - 1]).len() == 0 || has_part(
            trimmed(raws[raws.len() - 1]),
            "://"@,
        ));
        if i < before.len() {
            assert forall|k: int| 0 <= k < init.len() implies has_part(
                trimmed(#[trigger] init[k]),
                "://"@,
            ) || trimmed(init[k]).len() == 0 by {
                assert(init[k] == raws[k]);
            }
            law_listed_addresses_are_safe(init, chain, i);
        } else if has_part(trimmed(raws.last()), "://"@) {
            law_full_entries(raws.last(), chain);
        }
    }
}

/// The environment brings at most one address, which has to be safe as well.
pub proof fn law_environment_endpoint(text: Seq<char>)
    ensures
        environment_urls(None) == Ok::<Seq<UrlParts>, Seq<char>>(Seq::empty()),
        trimmed(text).len() == 0 ==> environment_urls(Some(text)) == Ok::<
            Seq<UrlParts>,
            Seq<char>,
        >(Seq::empty()),
        trimmed(text).len() > 0 && url_parts(trimmed(text)) is None ==> environment_urls(Some(text))
            == Err::<Seq<UrlParts>, Seq<char>>(trimmed(text)),
        trimmed(text).len() > 0 ==> (url_parts(trimmed(text)) matches Some(url) ==> {
            &&& is_safe(url) ==> environment_urls(Some(text)) == Ok::<Seq<UrlParts>, Seq<char>>(
                seq![url],
            )
            &&& !is_safe(url) ==> environment_urls(Some(text)) == Err::<Seq<UrlParts>, Seq<char>>(
                "RPC_URL must use HTTPS, except for an HTTP loopback endpoint"@,
            )
        }),
{
    reveal_strlit("RPC_URL");
    reveal_strlit(" must use HTTPS, except for an HTTP loopback endpoint");
    reveal_strlit("RPC_URL must use HTTPS, except for an HTTP loopback endpoint");
    assert("RPC_URL"@ + MUST_USE_HTTPS@
        == "RPC_URL must use HTTPS, except for an HTTP loopback endpoint"@);
}

/// Where neither the list nor the environment has an address, those of the chosen chain are tried,
/// in their order; without a chain there is nothing to try.
pub proof fn law_public_endpoints_come_last(
    raws: Seq<Seq<char>>,
    environment: Option<Seq<char>>,
    profile: ChainProfile,
)
    ensures
        entry_urls(raws, Some(profile)) == Ok::<Seq<UrlParts>, Seq<char>>(Seq::empty())
            && environment_urls(environment) == Ok::<Seq<UrlParts>, Seq<char>>(Seq::empty()) ==> (
        candidate_urls(raws, Some(profile), environment) matches Ok(urls) && urls.len()
            == profile.public_texts().len() && forall|i: int|
            0 <= i < urls.len() ==> #[trigger] urls[i] == url_parts(profile.public_texts()[i])->0),
        entry_urls(raws, None) == Ok::<Seq<UrlParts>, Seq<char>>(Seq::empty()) && environment_urls(
            environment,
        ) == Ok::<Seq<UrlParts>, Seq<char>>(Seq::empty()) ==> candidate_urls(raws, None, environment)
            == Err::<Seq<UrlParts>, Option<Seq<char>>>(None),
{
}

/// Ordering is stable: one more endpoint goes to the very end where it is a sequencer, and
/// otherwise behind those that can be read from and before the first sequencer.
pub proof fn law_ordering_is_stable(working: Seq<(Url, u64)>, next: (Url, u64), k: int)
    requires
        0 <= k <= ordered(working).len(),
        forall|i: int| 0 <= i < k ==> !sequencer_at(ordered(working), i),
        forall|i: int| k <= i < ordered(working).len() ==> sequencer_at(ordered(working), i),
    ensures
        ordered(Seq::empty()) == Seq::<(Url, u64)>::empty(),
        is_sequencer(next.0@) ==> ordered(working.push(next)) == ordered(working).push(next),
        !is_sequencer(next.0@) ==> ordered(working.push(next)) == ordered(working).insert(k, next),
{
    reveal(Seq::filter);
    let read = |probe: (Url, u64)| !is_sequencer(probe.0@);
    let send = |probe: (Url, u64)| is_sequencer(probe.0@);
    let reads = working.filter(read);
    let sends = working.filter(send);
    lemma_filtered(working, read);
    lemma_filtered(working, send);
    assert(working.push(next).drop_last() == working);
    assert(ordered(working) == reads + sends);
    if k < reads.len() {
        assert(sequencer_at(ordered(working), k));
        assert(read(reads[k]));
    }
    if k > reads.len() {
        assert(!sequencer_at(ordered(working), reads.len() as int));
        assert(send(sends[0]));
    }
    assert(k == reads.len());
    if is_sequencer(next.0@) {
        assert(ordered(working.push(next)) == reads + sends.push(next));
        assert(reads + sends.push(next) == (reads + sends).push(next));
    } else {
        assert(ordered(working.push(next)) == reads.push(next) + sends);
        assert(reads.push(next) + sends == (reads + sends).insert(k, next));
    }
}

/// How each answer counts: an endpoint that answers is worked with, in its place, where it serves
/// the expected chain; one that does not answer is kept where it is a sequencer, and else dropped.
pub proof fn law_answers_count_in_order(
    probes: Seq<(Url, Option<u64>)>,
    url: Url,
    chain_id: u64,
    expected: Option<u64>,
)
    ensures
        answered(Seq::empty()) == Seq::<(Url, u64)>::empty(),
        silent_sequencers(Seq::empty()) == Seq::<Url>::empty(),
        answered(probes.push((url, None))) == answered(probes),
        answered(probes.push((url, Some(chain_id)))) == answered(probes).push((url, chain_id)),
        silent_sequencers(probes.push((url, Some(chain_id)))) == silent_sequencers(probes),
        silent_sequencers(probes.push((url, None))) == (if is_sequencer(url@) {
            silent_sequencers(probes).push(url)
        } else {
            silent_sequencers(probes)
        }),
        on_chain(answered(probes), None) == answered(probes),
        expected is Some && expected != Some(chain_id) ==> on_chain(
            answered(probes).push((url, chain_id)),
            expected,
        ) == on_chain(answered(probes), expected),
        expected == Some(chain_id) ==> on_chain(answered(probes).push((url, chain_id)), expected)
            == on_chain(answered(probes), expected).push((url, chain_id)),
{
    reveal(Seq::filter);
    assert(probes.push((url, None::<u64>)).drop_last() == probes);
    assert(probes.push((url, Some(chain_id))).drop_last() == probes);
    assert(answered(probes).push((url, chain_id)).drop_last() == answered(probes));
}

/// Did a candidate of that address answer with that chain?
pub open spec fn serves(probes: Seq<(Url, Option<u64>)>, url: Url, chain_id: u64) -> bool {
    exists|i: int|
        0 <= i < probes.len() && (#[trigger] probes[i]).0 == url && probes[i].1 == Some(chain_id)
}

/// Those that answered are exactly the candidates with an answer.
proof fn lemma_answered(probes: Seq<(Url, Option<u64>)>)
    ensures
        forall|url: Url, chain_id: u64| #[trigger]
            answered(probes).contains((url, chain_id)) <==> serves(probes, url, chain_id),
    decreases probes.len(),
{
    if probes.len() > 0 {
        let init = probes.drop_last();
        let last = probes.last();
        let before = answered(init);
        let all = answered(probes);
        lemma_answered(init);
        assert forall|url: Url, chain_id: u64| #[trigger]
            all.contains((url, chain_id)) <==> serves(probes, url, chain_id) by {
            if all.contains((url, chain_id)) {
                let k = choose|k: int| 0 <= k < all.len() && all[k] == (url, chain_id);
                if k < before.len() {
                    assert(before[k] == (url, chain_id));
                    assert(before.contains((url, chain_id)));
                    let i = choose|i: int|
                        0 <= i < init.len() && (#[trigger] init[i]).0 == url && init[i].1 == Some(
                            chain_id,
                        );
                    assert(probes[i].0 == url);
                } else {
                    assert(probes[probes.len() - 1].0 == url);
                }
            }
            if serves(probes, url, chain_id) {
                let i = choose|i: int|
                    0 <= i < probes.len() && (#[trigger] probes[i]).0 == url && probes[i].1 == Some(
                        chain_id,
                    );
                if i < init.len() {
                    assert(init[i].0 == url);
                    assert(serves(init, url, chain_id));
                    assert(before.contains((url, chain_id)));
                    let k = choose|k: int| 0 <= k < before.len() && before[k] == (url, chain_id);
                    assert(all[k] == (url, chain_id));
                } else {
                    assert(all[before.len() as int] == (url, chain_id));
                }
            }
        }
    }
}

/// Those of the expected chain are exactly those that answered with it.
proof fn lemma_on_chain(working: Seq<(Url, u64)>, expected: Option<u64>)
    ensures
        forall|probe: (Url, u64)| #[trigger]
            on_chain(working, expected).contains(probe) <==> working.contains(probe) && (
            expected is None || expected == Some(probe.1)),
{
    if let Some(chain_id) = expected {
        let keep = |probe: (Url, u64)| probe.1 == chain_id;
        let kept = working.filter(keep);
        assert forall|probe: (Url, u64)| #[trigger] kept.contains(probe) <==> working.contains(probe)
            && probe.1 == chain_id by {
            if kept.contains(probe) {
                working.lemma_filter_contains_rev(keep, probe);
                let k = choose|k: int| 0 <= k < kept.len() && kept[k] == probe;
                working.lemma_filter_pred(keep, k);
            }
            if working.contains(probe) && probe.1 == chain_id {
                let i = choose|i: int| 0 <= i < working.len() && working[i] == probe;
                working.lemma_filter_contains(keep, i);
            }
        }
    }
}

/// The silent sequencers come from the candidates.
proof fn lemma_silent_origin(probes: Seq<(Url, Option<u64>)>, k: int)
    requires
        0 <= k < silent_sequencers(probes).len(),
    ensures
        exists|i: int|
            0 <= i < probes.len() && (#[trigger] probes[i]).0 == silent_sequencers(probes)[k]
                && probes[i].1 is None && is_sequencer(probes[i].0@),
    decreases probes.len(),
{
    if probes.len() > 0 {
        let init = probes.drop_last();
        if k < silent_sequencers(init).len() {
            lemma_silent_origin(init, k);
            let i = choose|i: int|
                0 <= i < init.len() && (#[trigger] init[i]).0 == silent_sequencers(init)[k]
                    && init[i].1 is None && is_sequencer(init[i].0@);
            assert(probes[i] == init[i]);
        } else {
            let i = probes.len() - 1;
            assert(probes[i].0 == silent_sequencers(probes)[k]);
        }
    }
}

/// What is used after probing: the chain is the expected one; every endpoint that answered with it
/// is used; and nothing is used but those and sequencers that did not answer.
pub proof fn law_used_endpoints_serve_the_chain(
    probes: Seq<(Url, Option<u64>)>,
    expected: Option<u64>,
    chain_id: u64,
    urls: Vec<Url>,
)
    requires
        is_probe_result(probes, expected, Ok((chain_id, urls))),
    ensures
        expected matches Some(id) ==> chain_id == id,
        expected is None ==> forall|i: int|
            0 <= i < probes.len() && (#[trigger] probes[i]).1 is Some ==> probes[i].1 == Some(
                chain_id,
            ),
        forall|i: int|
            0 <= i < probes.len() && (#[trigger] probes[i]).1 == Some(chain_id) ==> urls@.contains(
                probes[i].0,
            ),
        forall|k: int|
            0 <= k < urls@.len() ==> serves(probes, #[trigger] urls@[k], chain_id) || (exists|
                i: int,
            |
                0 <= i < probes.len() && (#[trigger] probes[i]).0 == urls@[k] && probes[i].1 is None
                    && is_sequencer(probes[i].0@)),
        exists|i: int| 0 <= i < probes.len() && (#[trigger] probes[i]).1 == Some(chain_id),
{
    broadcast use vstd::seq_lib::group_to_multiset_ensures;

    let working = on_chain(answered(probes), expected);
    let used = ordered(working);
    let served = addresses(used);
    lemma_answered(probes);
    lemma_on_chain(answered(probes), expected);
    law_ordering_keeps_endpoints(working);
    assert(urls@ == served + silent_sequencers(probes));
    assert(working.contains(working[0]));
    assert(answered(probes).contains((working[0].0, chain_id)));
    assert(serves(probes, working[0].0, chain_id));
    assert forall|i: int| 0 <= i < probes.len() && (#[trigger] probes[i]).1 is Some && expected
        is None implies probes[i].1 == Some(chain_id) by {
        let id = probes[i].1->0;
        assert(serves(probes, probes[i].0, id));
        assert(answered(probes).contains((probes[i].0, id)));
        let k = choose|k: int| 0 <= k < working.len() && working[k] == (probes[i].0, id);
        assert(working[k].1 == chain_id);
    }
    assert forall|i: int|
        0 <= i < probes.len() && (#[trigger] probes[i]).1 == Some(chain_id) implies urls@.contains(
        probes[i].0,
    ) by {
        let probe = (probes[i].0, chain_id);
        assert(serves(probes, probes[i].0, chain_id));
        assert(answered(probes).contains(probe));
        assert(working.contains(probe));
        assert(working.to_multiset().count(probe) > 0);
        assert(used.contains(probe));
        let k = choose|k: int| 0 <= k < used.len() && used[k] == probe;
        assert(urls@[k] == probes[i].0);
    }
    assert forall|k: int| 0 <= k < urls@.len() implies serves(
        probes,
        #[trigger] urls@[k],
        chain_id,
    ) || (exists|i: int|
        0 <= i < probes.len() && (#[trigger] probes[i]).0 == urls@[k] && probes[i].1 is None
            && is_sequencer(probes[i].0@)) by {
        if k < served.len() {
            let probe = used[k];
            assert(used.contains(probe));
            assert(used.to_multiset().count(probe) > 0);
            assert(working.contains(probe));
            let w = choose|w: int| 0 <= w < working.len() && working[w] == probe;
            assert(working[w].1 == chain_id);
            assert(answered(probes).contains((probe.0, chain_id)));
            assert(urls@[k] == probe.0);
        } else {
            lemma_silent_origin(probes, k - served.len());
            assert(urls@[k] == silent_sequencers(probes)[k - served.len()]);
        }
    }
}

/// Why probing fails: nobody answered; or those that did serve other chains than the expected one;
/// or, where none was expected, two of them serve different ones.
pub proof fn law_probe_errors(
    probes: Seq<(Url, Option<u64>)>,
    expected: Option<u64>,
    result: Result<(u64, Vec<Url>), SnipeError>,
)
    requires
        is_probe_result(probes, expected, result),
    ensures
        (forall|i: int| 0 <= i < probes.len() ==> (#[trigger] probes[i]).1 is None) <==> (result
            matches Err(SnipeError::NoWorkingRpc { .. })),
        result matches Err(SnipeError::NoWorkingRpc { count }) ==> count == probes.len(),
        expected matches Some(id) ==> (result is Ok <==> exists|i: int|
            0 <= i < probes.len() && (#[trigger] probes[i]).1 == Some(id)),
        result matches Err(SnipeError::NoEndpointForChain { chain_id, chain }) ==> expected == Some(
            chain_id,
        ) && chain@ == name_of_chain(chain_id),
        result matches Err(SnipeError::ChainMismatch { first, second }) ==> first != second
            && expected is None && (exists|i: int|
            0 <= i < probes.len() && (#[trigger] probes[i]).1 == Some(first)) && (exists|i: int|
            0 <= i < probes.len() && (#[trigger] probes[i]).1 == Some(second)),
{
    let all = answered(probes);
    let working = on_chain(all, expected);
    lemma_answered(probes);
    lemma_on_chain(all, expected);
    if all.len() > 0 {
        assert(all.contains((all[0].0, all[0].1)));
        assert(serves(probes, all[0].0, all[0].1));
        let i = choose|i: int|
            0 <= i < probes.len() && (#[trigger] probes[i]).0 == all[0].0 && probes[i].1 == Some(
                all[0].1,
            );
        assert(probes[i].1 is Some);
    }
    assert forall|i: int| 0 <= i < probes.len() && (#[trigger] probes[i]).1 is Some implies all.len()
        > 0 by {
        assert(serves(probes, probes[i].0, probes[i].1->0));
        assert(all.contains((probes[i].0, probes[i].1->0)));
    }
    if let Some(id) = expected {
        assert forall|i: int| 0 <= i < working.len() implies (#[trigger] working[i]).1 == id by {
            assert(working.contains(working[i]));
        }
        if working.len() > 0 {
            assert(working.contains(working[0]));
            assert(all.contains((working[0].0, id)));
            assert(serves(probes, working[0].0, id));
        }
        assert forall|i: int| 0 <= i < probes.len() && (#[trigger] probes[i]).1 == Some(
            id,
        ) implies working.len() > 0 by {
            assert(serves(probes, probes[i].0, id));
            assert(all.contains((probes[i].0, id)));
            assert(working.contains((probes[i].0, id)));
        }
    } else if let Err(SnipeError::ChainMismatch { first, second }) = result {
        assert(all.contains((all[0].0, first)));
        assert(serves(probes, all[0].0, first));
        let k = choose|k: int|
            0 <= k < working.len() && (#[trigger] working[k]).1 == second && second != first
                && all_serve(working.take(k), first);
        assert(all.contains((all[k].0, second)));
        assert(serves(probes, all[k].0, second));
    }
}

} // verus!
