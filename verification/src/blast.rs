//! Dispatch of a signed transaction to every endpoint at once.
//!
//! The body of the request is built before the stage opens; at that moment the only work left is
//! to write it to the sockets. This module makes the requests and judges the replies.

use vstd::prelude::*;

use crate::hexdata::{
    encode_hex, fixed_bytes, hex_text, law_hash_text_parses, prefixed_hex, same_hash, B256,
};
use crate::json::{string_member, text_member, Json};
use crate::rpc_url::Url;
use crate::text::{contains, decimal, has_part, lowered, occurs_at, same, to_ascii_lowercase};

verus! {

/// An endpoint, with the name that reports use for it.
#[derive(Debug)]
pub struct RpcEndpoint {
    /// Where requests go.
    pub url: Url,
    /// The name.
    pub label: String,
}

/// A signed and serialised transaction.
#[derive(Debug)]
pub struct SignedTransaction {
    /// Its hash.
    pub hash: B256,
    /// Its bytes.
    pub raw: Vec<u8>,
}

/// A request body that is ready to be sent, and the hash that a taker answers with.
#[derive(Debug)]
pub struct PreparedBlast {
    /// The hash of the transaction.
    pub tx_hash: B256,
    /// The request's body.
    pub body: String,
}

/// What one endpoint made of a transaction.
#[derive(Debug)]
pub struct BlastResult {
    /// The name of the endpoint.
    pub label: String,
    /// The transaction's hash, where the endpoint took it.
    pub tx_hash: Option<B256>,
    /// What went wrong.
    pub error: Option<String>,
}

/// One request to one endpoint.
#[derive(Debug)]
pub struct BlastRequest {
    /// Where it goes.
    pub url: Url,
    /// The name of the endpoint.
    pub label: String,
    /// What it says.
    pub body: String,
}

/// Why nothing can be dispatched.
#[derive(Debug)]
pub enum BlastError {
    /// There is no HTTP client.
    Client,
}

impl BlastError {
    /// Tells what went wrong.
    pub fn message(&self) -> (text: String)
        ensures
            text@ == "cannot construct the RPC HTTP client"@,
    {
        "cannot construct the RPC HTTP client".to_owned()
    }
}

/// The name of an endpoint: its host, or the whole address where it has none.
pub open spec fn label_of(url: Url) -> Seq<char> {
    match url.host {
        Some(host) => host@,
        None => url.text@,
    }
}

/// Names an endpoint.
pub fn label_from_url(url: &Url) -> (label: String)
    ensures
        label@ == label_of(*url),
{
    match &url.host {
        Some(host) => host.clone(),
        None => url.text.clone(),
    }
}

/// Makes the endpoints of a list of addresses, in the same order.
pub fn parse_endpoints(rpc_urls: &[Url]) -> (endpoints: Vec<RpcEndpoint>)
    ensures
        endpoints@.len() == rpc_urls@.len(),
        forall|i: int|
            0 <= i < rpc_urls@.len() ==> {
                &&& (#[trigger] endpoints@[i]).url@ == rpc_urls@[i]@
                &&& endpoints@[i].label@ == label_of(rpc_urls@[i])
            },
{
    let mut endpoints: Vec<RpcEndpoint> = Vec::new();
    let mut i: usize = 0;
    while i < rpc_urls.len()
        invariant
            i <= rpc_urls@.len(),
            endpoints@.len() == i,
            forall|j: int|
                0 <= j < i ==> {
                    &&& (#[trigger] endpoints@[j]).url@ == rpc_urls@[j]@
                    &&& endpoints@[j].label@ == label_of(rpc_urls@[j])
                },
        decreases rpc_urls@.len() - i,
    {
        let url = &rpc_urls[i];
        endpoints.push(RpcEndpoint { url: url.clone(), label: label_from_url(url) });
        i += 1;
    }
    endpoints
}

/// Does a text stand in JSON as it is, between quotes?
pub open spec fn json_plain(s: Seq<char>) -> bool {
    forall|i: int|
        0 <= i < s.len() ==> (#[trigger] s[i]) != '"' && s[i] != '\\' && s[i] as u32 >= 0x20
}

/// A text between quotes.
pub open spec fn quoted(s: Seq<char>) -> Seq<char> {
    seq!['"'] + s + seq!['"']
}

/// Does one text begin with a lesser character than another?
pub open spec fn leads(a: Seq<char>, b: Seq<char>) -> bool {
    a.len() > 0 && b.len() > 0 && a[0] < b[0]
}

/// The JSON object with a number, two strings and an array of one string.
pub open spec fn object_text(
    first: (Seq<char>, nat),
    second: (Seq<char>, Seq<char>),
    third: (Seq<char>, Seq<char>),
    fourth: (Seq<char>, Seq<char>),
) -> Seq<char> {
    seq!['{'] + quoted(first.0) + seq![':'] + decimal(first.1) + seq![','] + quoted(second.0)
        + seq![':'] + quoted(second.1) + seq![','] + quoted(third.0) + seq![':'] + quoted(third.1)
        + seq![','] + quoted(fourth.0) + seq![':', '['] + quoted(fourth.1) + seq![']', '}']
}

/// Calls `Display` of `serde_json::Value` on an object of four members: a number, two strings and
/// an array of one string. It writes no spaces, and the members in the order of their names. Names
/// and strings hold nothing that JSON escapes.
#[verifier::external_body]
fn write_object(
    first: (&str, u64),
    second: (&str, &str),
    third: (&str, &str),
    fourth: (&str, &str),
) -> (text: String)
    requires
        leads(first.0@, second.0@),
        leads(second.0@, third.0@),
        leads(third.0@, fourth.0@),
        json_plain(first.0@) && json_plain(second.0@) && json_plain(third.0@) && json_plain(
            fourth.0@,
        ),
        json_plain(second.1@) && json_plain(third.1@) && json_plain(fourth.1@),
    ensures
        text@ == object_text(
            (first.0@, first.1 as nat),
            (second.0@, second.1@),
            (third.0@, third.1@),
            (fourth.0@, fourth.1@),
        ),
{
    let mut members = serde_json::Map::new();
    members.insert(first.0.to_owned(), serde_json::Value::from(first.1));
    members.insert(second.0.to_owned(), serde_json::Value::from(second.1));
    members.insert(third.0.to_owned(), serde_json::Value::from(third.1));
    members.insert(fourth.0.to_owned(), serde_json::Value::from(vec![fourth.1]));
    serde_json::Value::Object(members).to_string()
}

/// The body of a request to broadcast the transaction with the given notation.
pub open spec fn send_body(transaction: Seq<char>) -> Seq<char> {
    object_text(
        ("id"@, 1),
        ("jsonrpc"@, "2.0"@),
        ("method"@, "eth_sendRawTransaction"@),
        ("params"@, transaction),
    )
}

/// Writes the body of a broadcast request.
fn write_send_body(transaction: &str) -> (body: String)
    requires
        json_plain(transaction@),
    ensures
        body@ == send_body(transaction@),
{
    proof {
        reveal_strlit("id");
        reveal_strlit("jsonrpc");
        reveal_strlit("2.0");
        reveal_strlit("method");
        reveal_strlit("eth_sendRawTransaction");
        reveal_strlit("params");
    }
    write_object(
        ("id", 1),
        ("jsonrpc", "2.0"),
        ("method", "eth_sendRawTransaction"),
        ("params", transaction),
    )
}

/// Is `prepared` the broadcast of a signed transaction?
pub open spec fn is_prepared(signed: SignedTransaction, prepared: PreparedBlast) -> bool {
    &&& prepared.tx_hash == signed.hash
    &&& prepared.body@ == send_body("0x"@ + hex_text(signed.raw@))
}

/// Does everything that can be done before the stage opens. The body is the same for every
/// endpoint.
pub fn prepare_blast(signed: &SignedTransaction) -> (prepared: PreparedBlast)
    ensures
        is_prepared(*signed, prepared),
{
    let mut transaction = "0x".to_owned();
    transaction.append(encode_hex(signed.raw.as_slice()).as_str());
    proof {
        reveal_strlit("0x");
    }
    PreparedBlast { tx_hash: signed.hash, body: write_send_body(transaction.as_str()) }
}

/// Is `request` the one to `endpoint` with that body?
pub open spec fn request_to(endpoint: RpcEndpoint, body: Seq<char>, request: BlastRequest) -> bool {
    &&& request.url@ == endpoint.url@
    &&& request.label@ == endpoint.label@
    &&& request.body@ == body
}

/// One request with the same body for every endpoint.
fn requests_to_all(body: &String, endpoints: &[RpcEndpoint]) -> (requests: Vec<BlastRequest>)
    ensures
        requests@.len() == endpoints@.len(),
        forall|i: int|
            0 <= i < endpoints@.len() ==> request_to(endpoints@[i], body@, #[trigger] requests@[i]),
{
    let mut requests: Vec<BlastRequest> = Vec::new();
    let mut i: usize = 0;
    while i < endpoints.len()
        invariant
            i <= endpoints@.len(),
            requests@.len() == i,
            forall|j: int|
                0 <= j < i ==> request_to(endpoints@[j], body@, #[trigger] requests@[j]),
        decreases endpoints@.len() - i,
    {
        let endpoint = &endpoints[i];
        requests.push(
            BlastRequest {
                url: endpoint.url.clone(),
                label: endpoint.label.clone(),
                body: body.clone(),
            },
        );
        i += 1;
    }
    requests
}

/// The requests that open a connection to every endpoint. Some endpoints take nothing but
/// transactions, so each is asked to broadcast an empty one, and the reply does not matter.
pub fn warm_connections(endpoints: &[RpcEndpoint]) -> (requests: Vec<BlastRequest>)
    ensures
        requests@.len() == endpoints@.len(),
        forall|i: int|
            0 <= i < endpoints@.len() ==> request_to(
                endpoints@[i],
                send_body("0x00"@),
                #[trigger] requests@[i],
            ),
{
    proof {
        reveal_strlit("0x00");
    }
    requests_to_all(&write_send_body("0x00"), endpoints)
}

/// The requests that broadcast a prepared transaction: one for every endpoint, in their order.
pub fn blast_to_all(prepared: &PreparedBlast, endpoints: &[RpcEndpoint]) -> (requests: Vec<
    BlastRequest,
>)
    ensures
        requests@.len() == endpoints@.len(),
        forall|i: int|
            0 <= i < endpoints@.len() ==> request_to(
                endpoints@[i],
                prepared.body@,
                #[trigger] requests@[i],
            ),
{
    requests_to_all(&prepared.body, endpoints)
}

/// What a reply says went wrong.
pub open spec fn reply_error(reply: Json) -> Seq<char> {
    match string_member(reply.member("error"@), "message"@) {
        Some(message) => message,
        None => "unknown RPC error"@,
    }
}

/// Is `result` what a reply amounts to? A reply with a `result` string took the transaction where
/// that is the expected hash; any other reply, and no reply at all, is an error.
pub open spec fn result_of(
    label: Seq<char>,
    expected: B256,
    reply: Result<Json, String>,
    result: BlastResult,
) -> bool {
    &&& result.label@ == label
    &&& match reply {
        Ok(json) => match string_member(Some(json), "result"@) {
            Some(hash) => {
                &&& result.error is None
                &&& result.tx_hash is Some <==> fixed_bytes(hash, 32) == Some(expected@)
                &&& result.tx_hash matches Some(found) ==> found@ == expected@
            },
            None => {
                &&& result.tx_hash is None
                &&& result.error is Some
                &&& result.error->0@ == reply_error(json)
            },
        },
        Err(error) => result.tx_hash is None && result.error == Some(error),
    }
}

/// Judges the reply of one endpoint; `Err` tells why there is none.
pub fn read_reply(label: String, expected: &B256, reply: Result<Json, String>) -> (result:
    BlastResult)
    ensures
        result_of(label@, *expected, reply, result),
{
    match reply {
        Ok(json) => {
            if let Some(text) = text_member(&json, "result") {
                let tx_hash = match B256::parse(text) {
                    Some(hash) => if same_hash(&hash, expected) {
                        Some(hash)
                    } else {
                        None
                    },
                    None => None,
                };
                return BlastResult { label, tx_hash, error: None };
            }
            let error = match json.get("error") {
                Some(error) => match text_member(error, "message") {
                    Some(message) => message.to_owned(),
                    None => "unknown RPC error".to_owned(),
                },
                None => "unknown RPC error".to_owned(),
            };
            BlastResult { label, tx_hash: None, error: Some(error) }
        },
        Err(error) => BlastResult { label, tx_hash: None, error: Some(error) },
    }
}

/// Does an error say that the endpoint has the transaction already?
pub open spec fn tells_known(error: Seq<char>) -> bool {
    has_part(lowered(error), "already known"@) || has_part(lowered(error), "already exists"@)
}

/// Tells whether an error says that the endpoint has the transaction already.
pub fn is_already_known(error: &str) -> (known: bool)
    ensures
        known == tells_known(error@),
{
    let lower = to_ascii_lowercase(error);
    contains(lower.as_str(), "already known") || contains(lower.as_str(), "already exists")
}

/// Did the endpoint answer that it has the transaction already?
pub open spec fn knew(result: BlastResult) -> bool {
    result.error matches Some(error) && tells_known(error@)
}

/// Is the transaction out? It is where any endpoint answered with its hash, or where there are
/// answers and all of them say that the transaction is already known.
pub open spec fn accepted(results: Seq<BlastResult>) -> bool {
    ||| exists|i: int| 0 <= i < results.len() && (#[trigger] results[i]).tx_hash is Some
    ||| results.len() > 0 && forall|i: int| 0 <= i < results.len() ==> knew(#[trigger] results[i])
}

/// Tells whether a transaction is out.
pub fn is_accepted(results: &[BlastResult]) -> (yes: bool)
    ensures
        yes == accepted(results@),
        (exists|i: int| 0 <= i < results@.len() && (#[trigger] results@[i]).tx_hash is Some) ==> yes,
{
    let mut all_known: bool = results.len() > 0;
    let mut i: usize = 0;
    while i < results.len()
        invariant
            i <= results@.len(),
            forall|j: int| 0 <= j < i ==> (#[trigger] results@[j]).tx_hash is None,
            all_known == (results@.len() > 0 && forall|j: int|
                0 <= j < i ==> knew(#[trigger] results@[j])),
        decreases results@.len() - i,
    {
        let result = &results[i];
        if result.tx_hash.is_some() {
            return true;
        }
        let known = match &result.error {
            Some(error) => is_already_known(error.as_str()),
            None => false,
        };
        all_known = all_known && known;
        i += 1;
    }
    all_known
}

/// Why the endpoint refused, where it did.
pub open spec fn refusal(result: BlastResult) -> Option<Seq<char>> {
    if result.tx_hash is None {
        match result.error {
            Some(error) => Some(error@),
            None => None,
        }
    } else {
        None
    }
}

/// The reasons of the refusals, each once, in the order in which they first come.
pub open spec fn distinct_reasons(results: Seq<BlastResult>) -> Seq<Seq<char>>
    decreases results.len(),
{
    if results.len() == 0 {
        Seq::empty()
    } else {
        let before = distinct_reasons(results.drop_last());
        match refusal(results.last()) {
            Some(reason) => if before.contains(reason) {
                before
            } else {
                before.push(reason)
            },
            None => before,
        }
    }
}

/// The contents of a list of texts.
pub open spec fn texts(list: Seq<&str>) -> Seq<Seq<char>> {
    Seq::new(list.len(), |i: int| list[i]@)
}

/// Tells whether a text stands in a list.
fn holds_text(list: &Vec<&str>, text: &str) -> (found: bool)
    ensures
        found == texts(list@).contains(text@),
{
    let mut i: usize = 0;
    while i < list.len()
        invariant
            i <= list@.len(),
            forall|j: int| 0 <= j < i ==> texts(list@)[j] != text@,
        decreases list@.len() - i,
    {
        if same(list[i], text) {
            assert(texts(list@)[i as int] == text@);
            return true;
        }
        i += 1;
    }
    false
}

/// Collects why endpoints refused a transaction, each reason once.
pub fn rejection_reasons<'a>(results: &'a [BlastResult]) -> (reasons: Vec<&'a str>)
    ensures
        texts(reasons@) == distinct_reasons(results@),
{
    let mut reasons: Vec<&'a str> = Vec::new();
    let mut i: usize = 0;
    assert(texts(reasons@) == distinct_reasons(results@.take(0)));
    while i < results.len()
        invariant
            i <= results@.len(),
            texts(reasons@) == distinct_reasons(results@.take(i as int)),
        decreases results@.len() - i,
    {
        let result = &results[i];
        let ghost before = texts(reasons@);
        assert(results@.take(i + 1).drop_last() == results@.take(i as int));
        if result.tx_hash.is_none() {
            if let Some(error) = &result.error {
                if !holds_text(&reasons, error.as_str()) {
                    reasons.push(error.as_str());
                    assert(texts(reasons@) == before.push(error@));
                }
            }
        }
        i += 1;
    }
    assert(results@.take(i as int) == results@);
    reasons
}

/// No reason is told twice, and exactly the reasons of the refusals are told.
pub proof fn law_reasons_are_distinct(results: Seq<BlastResult>)
    ensures
        distinct_reasons(results).no_duplicates(),
        forall|reason: Seq<char>| #[trigger]
            distinct_reasons(results).contains(reason) <==> exists|i: int|
                0 <= i < results.len() && refusal(#[trigger] results[i]) == Some(reason),
    decreases results.len(),
{
    if results.len() > 0 {
        let init = results.drop_last();
        let before = distinct_reasons(init);
        let all = distinct_reasons(results);
        law_reasons_are_distinct(init);
        assert forall|reason: Seq<char>| #[trigger] all.contains(reason) implies exists|i: int|
            0 <= i < results.len() && refusal(#[trigger] results[i]) == Some(reason) by {
            if before.contains(reason) {
                let i = choose|i: int|
                    0 <= i < init.len() && refusal(#[trigger] init[i]) == Some(reason);
                assert(refusal(results[i]) == Some(reason));
            } else {
                let k = choose|k: int| 0 <= k < all.len() && all[k] == reason;
                assert(all == before.push(refusal(results.last())->0));
                if k < before.len() {
                    assert(before[k] == reason);
                }
                assert(refusal(results[results.len() - 1]) == Some(reason));
            }
        }
        assert forall|reason: Seq<char>|
            (exists|i: int| 0 <= i < results.len() && refusal(#[trigger] results[i]) == Some(reason)) implies #[trigger] all.contains(
            reason,
        ) by {
            let i = choose|i: int|
                0 <= i < results.len() && refusal(#[trigger] results[i]) == Some(reason);
            if i < init.len() {
                assert(refusal(init[i]) == Some(reason));
                assert(before.contains(reason));
                let k = choose|k: int| 0 <= k < before.len() && before[k] == reason;
                assert(all[k] == reason);
            } else if !before.contains(reason) {
                assert(all[before.len() as int] == reason);
            }
        }
    }
}

/// A refusal by every endpoint, none of which knew the transaction, is never taken for success.
pub proof fn law_unknown_refusals_are_rejected(results: Seq<BlastResult>)
    requires
        forall|i: int|
            0 <= i < results.len() ==> (#[trigger] results[i]).tx_hash is None && !knew(results[i]),
    ensures
        !accepted(results),
{
    if results.len() > 0 {
        assert(!knew(results[0]));
    }
}

/// One hash is enough: wherever in the list it stands, and whatever the others answered.
pub proof fn law_any_hash_is_accepted(results: Seq<BlastResult>, i: int)
    requires
        0 <= i < results.len(),
        results[i].tx_hash is Some,
    ensures
        accepted(results),
{
}

/// Without a hash, a transaction counts as out exactly where every endpoint that was asked says
/// that it has the transaction; one other answer, or nobody to ask, is enough to doubt it.
pub proof fn law_without_hash_all_must_know(results: Seq<BlastResult>)
    requires
        forall|i: int| 0 <= i < results.len() ==> (#[trigger] results[i]).tx_hash is None,
    ensures
        results.len() == 0 ==> !accepted(results),
        forall|i: int|
            0 <= i < results.len() && (#[trigger] results[i]).error is None ==> !accepted(results),
        forall|i: int|
            0 <= i < results.len() && ((#[trigger] results[i]).error matches Some(error)
                && !has_part(lowered(error@), "already known"@) && !has_part(
                lowered(error@),
                "already exists"@,
            )) ==> !accepted(results),
        results.len() > 0 && (forall|i: int|
            0 <= i < results.len() ==> ((#[trigger] results[i]).error matches Some(error) && (
            has_part(lowered(error@), "already known"@) || has_part(
                lowered(error@),
                "already exists"@,
            )))) ==> accepted(results),
{
    assert forall|i: int|
        0 <= i < results.len() && (#[trigger] results[i]).error is None implies !accepted(results) by {
        assert(!knew(results[i]));
    }
    assert forall|i: int|
        0 <= i < results.len() && ((#[trigger] results[i]).error matches Some(error) && !has_part(
            lowered(error@),
            "already known"@,
        ) && !has_part(lowered(error@), "already exists"@)) implies !accepted(results) by {
        assert(!knew(results[i]));
    }
}

/// The order of the answers does not matter: a list counts as its two halves in the other order do.
pub proof fn law_acceptance_ignores_order(first: Seq<BlastResult>, second: Seq<BlastResult>)
    ensures
        accepted(first + second) == accepted(second + first),
{
    let a = first + second;
    let b = second + first;
    assert forall|i: int| 0 <= i < a.len() implies b.contains(#[trigger] a[i]) by {
        if i < first.len() {
            assert(b[i + second.len()] == a[i]);
        } else {
            assert(b[i - first.len()] == a[i]);
        }
    }
    assert forall|i: int| 0 <= i < b.len() implies a.contains(#[trigger] b[i]) by {
        if i < second.len() {
            assert(a[i + first.len()] == b[i]);
        } else {
            assert(a[i - second.len()] == b[i]);
        }
    }
    if accepted(a) {
        lemma_accepted_elsewhere(a, b);
    }
    if accepted(b) {
        lemma_accepted_elsewhere(b, a);
    }
}

/// What is accepted stays so where the same answers are listed otherwise.
proof fn lemma_accepted_elsewhere(from: Seq<BlastResult>, to: Seq<BlastResult>)
    requires
        accepted(from),
        from.len() == to.len(),
        forall|i: int| 0 <= i < from.len() ==> to.contains(#[trigger] from[i]),
        forall|i: int| 0 <= i < to.len() ==> from.contains(#[trigger] to[i]),
    ensures
        accepted(to),
{
    if exists|i: int| 0 <= i < from.len() && (#[trigger] from[i]).tx_hash is Some {
        let i = choose|i: int| 0 <= i < from.len() && (#[trigger] from[i]).tx_hash is Some;
        assert(to.contains(from[i]));
        let j = choose|j: int| 0 <= j < to.len() && to[j] == from[i];
        assert(to[j].tx_hash is Some);
    } else {
        assert forall|j: int| 0 <= j < to.len() implies knew(#[trigger] to[j]) by {
            assert(from.contains(to[j]));
            let i = choose|i: int| 0 <= i < from.len() && from[i] == to[j];
            assert(knew(from[i]));
        }
    }
}

/// The two phrases count wherever in an error they stand, and however their letters are cased.
pub proof fn law_known_phrases(before: Seq<char>, phrase: Seq<char>, after: Seq<char>)
    requires
        lowered(phrase) == "already known"@ || lowered(phrase) == "already exists"@,
    ensures
        tells_known(before + phrase + after),
{
    let error = before + phrase + after;
    let k = before.len() as int;
    assert(lowered(error).subrange(k, k + phrase.len()) == lowered(phrase));
    assert(occurs_at(lowered(error), lowered(phrase), k));
}

/// The reasons come in the order of the answers: further answers only add reasons behind those of
/// the earlier ones, and each adds its own unless it was told before.
pub proof fn law_reasons_come_in_order(results: Seq<BlastResult>, next: BlastResult)
    ensures
        next.tx_hash is Some || next.error is None ==> distinct_reasons(results.push(next))
            == distinct_reasons(results),
        next.tx_hash is None ==> (next.error matches Some(error) ==> distinct_reasons(
            results.push(next),
        ) == (if distinct_reasons(results).contains(error@) {
            distinct_reasons(results)
        } else {
            distinct_reasons(results).push(error@)
        })),
        distinct_reasons(Seq::empty()) == Seq::<Seq<char>>::empty(),
{
    assert(results.push(next).drop_last() == results);
}

/// What the reasons are: the errors of the answers that brought no hash, and no others.
pub proof fn law_reasons_are_the_errors(results: Seq<BlastResult>, reason: Seq<char>)
    ensures
        distinct_reasons(results).contains(reason) <==> exists|i: int|
            0 <= i < results.len() && (#[trigger] results[i]).tx_hash is None && (
            results[i].error matches Some(error) && error@ == reason),
{
    law_reasons_are_distinct(results);
    if distinct_reasons(results).contains(reason) {
        let i = choose|i: int|
            0 <= i < results.len() && refusal(#[trigger] results[i]) == Some(reason);
        assert(results[i].tx_hash is None);
    }
    if exists|i: int|
        0 <= i < results.len() && (#[trigger] results[i]).tx_hash is None && (
        results[i].error matches Some(error) && error@ == reason) {
        let i = choose|i: int|
            0 <= i < results.len() && (#[trigger] results[i]).tx_hash is None && (
            results[i].error matches Some(error) && error@ == reason);
        assert(refusal(results[i]) == Some(reason));
    }
}

/// An endpoint that answers with the hash of what it was sent has taken it; one that answers with
/// any other text has not, and says nothing of why.
pub proof fn law_only_the_own_hash_counts(
    label: Seq<char>,
    expected: B256,
    json: Json,
    answer: Seq<char>,
    result: BlastResult,
)
    requires
        result_of(label, expected, Ok(json), result),
        string_member(Some(json), "result"@) == Some(answer),
    ensures
        result.label@ == label,
        result.error is None,
        answer == prefixed_hex(expected@) ==> (result.tx_hash matches Some(hash) && hash@
            == expected@),
        forall|other: B256|
            other@ != expected@ && answer == #[trigger] prefixed_hex(other@)
                ==> result.tx_hash is None,
        fixed_bytes(answer, 32) is None ==> result.tx_hash is None,
        result.tx_hash matches Some(hash) ==> hash@ == expected@,
{
    law_hash_text_parses(expected@);
    assert forall|other: B256| other@ != expected@ && answer == #[trigger] prefixed_hex(
        other@,
    ) implies result.tx_hash is None by {
        law_hash_text_parses(other@);
    }
}

/// An endpoint that answers without a result is quoted, and so is whatever kept it from answering.
pub proof fn law_errors_are_quoted(
    label: Seq<char>,
    expected: B256,
    reply: Result<Json, String>,
    result: BlastResult,
)
    requires
        result_of(label, expected, reply, result),
    ensures
        result.label@ == label,
        reply matches Err(why) ==> result.tx_hash is None && (result.error matches Some(error)
            && error@ == why@),
        reply matches Ok(json) ==> (string_member(Some(json), "result"@) is None
            ==> result.tx_hash is None && (result.error matches Some(error) && error@ == (match
            string_member(json.member("error"@), "message"@) {
            Some(message) => message,
            None => "unknown RPC error"@,
        }))),
        result.tx_hash is Some ==> result.error is None,
{
}

/// The body of a broadcast, letter for letter: only the transaction changes.
pub proof fn law_send_body_text(transaction: Seq<char>)
    ensures
        send_body(transaction)
            == "{\"id\":1,\"jsonrpc\":\"2.0\",\"method\":\"eth_sendRawTransaction\",\"params\":[\""@
            + transaction + "\"]}"@,
{
    reveal_strlit(
        "{\"id\":1,\"jsonrpc\":\"2.0\",\"method\":\"eth_sendRawTransaction\",\"params\":[\"",
    );
    reveal_strlit("\"]}");
    reveal_strlit("id");
    reveal_strlit("jsonrpc");
    reveal_strlit("2.0");
    reveal_strlit("method");
    reveal_strlit("eth_sendRawTransaction");
    reveal_strlit("params");
    reveal_with_fuel(decimal, 2);
}

/// A request to an endpoint goes to its address, bears its name and says exactly the body.
pub proof fn law_request_goes_to_its_endpoint(
    endpoint: RpcEndpoint,
    body: Seq<char>,
    request: BlastRequest,
)
    requires
        request_to(endpoint, body, request),
    ensures
        request.url@ == endpoint.url@,
        request.label@ == endpoint.label@,
        request.body@ == body,
{
}

/// An endpoint is named by its host wherever it has one.
pub proof fn law_hosts_name_endpoints(url: Url)
    ensures
        url.host matches Some(host) ==> label_of(url) == host@,
        url.host is None ==> label_of(url) == url.text@,
{
}

/// The body of a broadcast carries the signed bytes, all of them and in order: what stands between
/// its fixed ends reads back as the transaction. And it goes with the transaction's own hash.
pub proof fn law_body_carries_the_transaction(signed: SignedTransaction, prepared: PreparedBlast)
    requires
        is_prepared(signed, prepared),
    ensures
        prepared.tx_hash@ == signed.hash@,
        ({
            let head
                = "{\"id\":1,\"jsonrpc\":\"2.0\",\"method\":\"eth_sendRawTransaction\",\"params\":[\""@;
            let tail = "\"]}"@;
            let body = prepared.body@;
            &&& body.len() == head.len() + 2 + 2 * signed.raw@.len() + tail.len()
            &&& body.take(head.len() as int) == head
            &&& fixed_bytes(
                body.subrange(head.len() as int, body.len() - tail.len()),
                signed.raw@.len(),
            ) == Some(signed.raw@)
            &&& body.skip(body.len() - tail.len()) == tail
        }),
{
    let head
        = "{\"id\":1,\"jsonrpc\":\"2.0\",\"method\":\"eth_sendRawTransaction\",\"params\":[\""@;
    let tail = "\"]}"@;
    let middle = "0x"@ + hex_text(signed.raw@);
    let body = prepared.body@;
    law_send_body_text(middle);
    reveal_strlit("0x");
    assert(middle == prefixed_hex(signed.raw@));
    law_hash_text_parses(signed.raw@);
    assert(body == head + middle + tail);
    assert(body.take(head.len() as int) == head);
    assert(body.subrange(head.len() as int, body.len() - tail.len()) == middle);
    assert(body.skip(body.len() - tail.len()) == tail);
}

} // verus!
