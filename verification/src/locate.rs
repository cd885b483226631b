//! Which contract a collection is.

use vstd::prelude::*;

use crate::hexdata::{
    checksum_text, fixed_bytes, half_byte, hex_char, hex_text, law_address_text_parses, Address,
};
use crate::json::{string_member, text_member, Json};
use crate::rpc_url::{url_parts, Url};
use crate::snipe::{prefixed, SnipeError};
use crate::text::{begins_with, contents, starts_with, trim, trim_end, trim_start, trimmed};

verus! {

/// What a user's naming of a collection comes to.
#[derive(Debug)]
pub enum Locator {
    /// The contract itself.
    Contract(Address),
    /// A name to look up.
    Slug(String),
}

/// Does the text begin like a hexadecimal number?
pub open spec fn hex_prefixed(s: Seq<char>) -> bool {
    begins_with(s, "0x"@) || begins_with(s, "0X"@)
}

/// Tells whether a text begins like a hexadecimal number.
fn has_hex_prefix(s: &str) -> (yes: bool)
    ensures
        yes == hex_prefixed(s@),
{
    starts_with(s, "0x") || starts_with(s, "0X")
}

/// The address that a segment of a path is.
pub open spec fn segment_address(segment: Seq<char>) -> Option<Seq<u8>> {
    if hex_prefixed(segment) {
        fixed_bytes(segment, 20)
    } else {
        None
    }
}

/// The first address among the segments of a path, from index `from` on.
pub open spec fn first_address(segments: Seq<Seq<char>>, from: int) -> Option<Seq<u8>>
    decreases segments.len() - from,
{
    if from >= segments.len() {
        None
    } else if segment_address(segments[from]) is Some {
        segment_address(segments[from])
    } else {
        first_address(segments, from + 1)
    }
}

/// Is `result` what a path comes to? The first address in it; without one, its last segment is the
/// name to look up.
pub open spec fn is_path_result(
    segments: Seq<Seq<char>>,
    result: Result<Locator, SnipeError>,
) -> bool {
    match first_address(segments, 0) {
        Some(bytes) => result matches Ok(Locator::Contract(address)) && address@ == bytes,
        None => result matches Ok(Locator::Slug(slug)) && slug@ == (if segments.len() > 0 {
            segments.last()
        } else {
            Seq::empty()
        }),
    }
}

/// Is `result` the complaint that nothing can be made of `text`?
pub open spec fn is_bad_locator(text: Seq<char>, result: Result<Locator, SnipeError>) -> bool {
    result matches Err(SnipeError::InvalidCollection(told)) && told@ == text
}

/// Is `result` what naming a collection by `locator` comes to?
pub open spec fn is_locator_result(
    locator: Seq<char>,
    result: Result<Locator, SnipeError>,
) -> bool {
    let name = trimmed(locator);
    if hex_prefixed(name) {
        match fixed_bytes(name, 20) {
            Some(bytes) => result matches Ok(Locator::Contract(address)) && address@ == bytes,
            None => is_bad_locator(name, result),
        }
    } else if begins_with(name, "http://"@) || begins_with(name, "https://"@) {
        match url_parts(name) {
            Some(url) => is_path_result(url.3, result),
            None => is_bad_locator(name, result),
        }
    } else {
        result matches Ok(Locator::Slug(slug)) && slug@ == name
    }
}

/// Finds the contract in a path.
pub fn locate_in_path(segments: &Vec<String>) -> (result: Result<Locator, SnipeError>)
    ensures
        is_path_result(contents(segments@), result),
{
    let ghost names = contents(segments@);
    let mut i: usize = 0;
    while i < segments.len()
        invariant
            i <= segments@.len(),
            names == contents(segments@),
            first_address(names, 0) == first_address(names, i as int),
        decreases segments@.len() - i,
    {
        let segment = segments[i].as_str();
        assert(names[i as int] == segment@);
        if has_hex_prefix(segment) {
            if let Some(address) = Address::parse(segment) {
                return Ok(Locator::Contract(address));
            }
        }
        i += 1;
    }
    if segments.len() > 0 {
        assert(names.last() == segments@.last()@);
        Ok(Locator::Slug(segments[segments.len() - 1].clone()))
    } else {
        proof {
            reveal_strlit("");
            assert(""@ == Seq::<char>::empty());
        }
        Ok(Locator::Slug("".to_owned()))
    }
}

/// Settles what a collection is: an address stands for itself, a URL for the first address in its
/// path, or else for its last segment, and anything else is a name to look up.
pub fn resolve_nft_contract(locator: &str) -> (result: Result<Locator, SnipeError>)
    ensures
        is_locator_result(locator@, result),
{
    let name = trim(locator);
    if has_hex_prefix(name) {
        return match Address::parse(name) {
            Some(address) => Ok(Locator::Contract(address)),
            None => Err(SnipeError::InvalidCollection(name.to_owned())),
        };
    }
    if starts_with(name, "http://") || starts_with(name, "https://") {
        return match Url::parse(name) {
            Some(url) => locate_in_path(&url.segments),
            None => Err(SnipeError::InvalidCollection(name.to_owned())),
        };
    }
    Ok(Locator::Slug(name.to_owned()))
}

/// An address, as `Address::to_text` writes it, names itself.
pub proof fn law_address_names_itself(address: Address, result: Result<Locator, SnipeError>)
    requires
        is_locator_result(checksum_text(address@), result),
    ensures
        result matches Ok(Locator::Contract(found)) && found@ == address@,
{
    let s = checksum_text(address@);
    reveal_strlit("0x");
    law_address_text_parses(address@);
    assert(s.subrange(0, 2) == "0x"@);
    assert(begins_with(s, "0x"@));
    let last = s[41];
    assert(hex_text(address@)[39] == hex_char(half_byte(address@, 39)));
    assert(0 <= half_byte(address@, 39) < 16);
    assert(s.last() == last);
    assert(trim_start(s) == s);
    assert(trim_end(s) == s);
}

/// Where a name is looked up.
pub open spec fn lookup_url(slug: Seq<char>) -> Seq<char> {
    "https://api.opensea.io/api/v2/collections/"@ + slug
}

/// Tells where a name is looked up.
pub fn slug_url(slug: &str) -> (url: String)
    ensures
        url@ == lookup_url(slug@),
{
    prefixed("https://api.opensea.io/api/v2/collections/", slug)
}

/// The key that goes with the lookup: what the environment sets, unless it is blank.
pub fn api_key_header(api_key: Option<&str>) -> (header: Option<String>)
    ensures
        match api_key {
            Some(key) => if trimmed(key@).len() > 0 {
                header is Some && header->0@ == trimmed(key@)
            } else {
                header is None
            },
            None => header is None,
        },
{
    match api_key {
        Some(key) => {
            let header = trim(key);
            if header.is_empty() {
                None
            } else {
                Some(header.to_owned())
            }
        },
        None => None,
    }
}

/// What came of a lookup.
#[derive(Debug)]
pub enum SlugReply {
    /// No answer, and why.
    Failed(String),
    /// An answer.
    Answer {
        /// The status code.
        status: u16,
        /// The status code in words.
        status_text: String,
        /// The body, or why it could not be read.
        body: Result<Json, String>,
    },
}

/// Is `result` a lookup that failed with that text?
pub open spec fn is_lookup_error(text: Seq<char>, result: Result<Address, SnipeError>) -> bool {
    result matches Err(SnipeError::SlugLookup(told)) && told@ == text
}

/// Is `result` what the body of an answer comes to: the address of the first contract in it?
pub open spec fn is_body_result(
    slug: Seq<char>,
    body: Json,
    result: Result<Address, SnipeError>,
) -> bool {
    let contracts = match body.member("contracts"@) {
        Some(list) => list.items(),
        None => None,
    };
    match contracts {
        None => is_lookup_error("no contracts listed for \""@ + slug + "\""@, result),
        Some(items) => if items.len() == 0 {
            is_lookup_error("no contracts listed for \""@ + slug + "\""@, result)
        } else {
            match string_member(Some(items[0]), "address"@) {
                None => is_lookup_error("malformed contract entry for \""@ + slug + "\""@, result),
                Some(text) => match fixed_bytes(text, 20) {
                    Some(bytes) => result is Ok && result->Ok_0@ == bytes,
                    None => result matches Err(SnipeError::InvalidCollection(told)) && told@ == text,
                },
            }
        },
    }
}

/// Is `result` what a lookup comes to?
pub open spec fn is_slug_result(
    slug: Seq<char>,
    reply: SlugReply,
    result: Result<Address, SnipeError>,
) -> bool {
    match reply {
        SlugReply::Failed(error) => is_lookup_error(error@, result),
        SlugReply::Answer { status, status_text, body } => if status == 401 || status == 403 {
            is_lookup_error(
                "OpenSea refused the lookup (401/403) — the slug may be misspelled, or it wants an API key"@,
                result,
            )
        } else if status == 404 {
            is_lookup_error("no OpenSea collection called \""@ + slug + "\""@, result)
        } else if status == 429 {
            is_lookup_error("OpenSea rate-limited the lookup — retry shortly"@, result)
        } else if status < 200 || status > 299 {
            is_lookup_error(
                "could not resolve \""@ + slug + "\": "@ + status_text@,
                result,
            )
        } else {
            match body {
                Ok(json) => is_body_result(slug, json, result),
                Err(error) => is_lookup_error(error@, result),
            }
        },
    }
}

/// A text about a name in quotes.
fn about(head: &str, slug: &str, tail: &str) -> (text: String)
    ensures
        text@ == head@ + slug@ + tail@,
{
    let mut text = prefixed(head, slug);
    text.append(tail);
    text
}

/// Finds the contract in the body of an answer.
pub fn contract_of_body(slug: &str, body: &Json) -> (result: Result<Address, SnipeError>)
    ensures
        is_body_result(slug@, *body, result),
{
    let contracts = match body.get("contracts") {
        Some(list) => list.as_array(),
        None => None,
    };
    match contracts {
        Some(items) => {
            if items.len() == 0 {
                return Err(SnipeError::SlugLookup(about("no contracts listed for \"", slug, "\"")));
            }
            match text_member(&items[0], "address") {
                Some(text) => match Address::parse(text) {
                    Some(address) => Ok(address),
                    None => Err(SnipeError::InvalidCollection(text.to_owned())),
                },
                None => Err(
                    SnipeError::SlugLookup(about("malformed contract entry for \"", slug, "\"")),
                ),
            }
        },
        None => Err(SnipeError::SlugLookup(about("no contracts listed for \"", slug, "\""))),
    }
}

/// Settles what a lookup comes to.
pub fn resolve_slug(slug: &str, reply: SlugReply) -> (result: Result<Address, SnipeError>)
    ensures
        is_slug_result(slug@, reply, result),
{
    match reply {
        SlugReply::Failed(error) => Err(SnipeError::SlugLookup(error)),
        SlugReply::Answer { status, status_text, body } => {
            if status == 401 || status == 403 {
                return Err(
                    SnipeError::SlugLookup(
                        "OpenSea refused the lookup (401/403) — the slug may be misspelled, or it wants an API key".to_owned(),
                    ),
                );
            }
            if status == 404 {
                return Err(
                    SnipeError::SlugLookup(about("no OpenSea collection called \"", slug, "\"")),
                );
            }
            if status == 429 {
                return Err(
                    SnipeError::SlugLookup(
                        "OpenSea rate-limited the lookup — retry shortly".to_owned(),
                    ),
                );
            }
            if status < 200 || status > 299 {
                let mut text = about("could not resolve \"", slug, "\": ");
                text.append(status_text.as_str());
                return Err(SnipeError::SlugLookup(text));
            }
            match body {
                Ok(json) => contract_of_body(slug, &json),
                Err(error) => Err(SnipeError::SlugLookup(error)),
            }
        },
    }
}

/// Where a path holds an address, the first one is the contract, wherever in the path it stands;
/// where it holds none, the last stretch of the path is the name to look up.
pub proof fn law_first_address_of_a_path(
    segments: Seq<Seq<char>>,
    i: int,
    result: Result<Locator, SnipeError>,
)
    requires
        is_path_result(segments, result),
        0 <= i <= segments.len(),
        forall|j: int|
            0 <= j < i ==> !(begins_with(#[trigger] segments[j], "0x"@) || begins_with(
                segments[j],
                "0X"@,
            )) || fixed_bytes(segments[j], 20) is None,
    ensures
        i < segments.len() && (begins_with(segments[i], "0x"@) || begins_with(segments[i], "0X"@))
            ==> (fixed_bytes(segments[i], 20) matches Some(bytes) ==> (result matches Ok(
            Locator::Contract(address),
        ) && address@ == bytes)),
        i == segments.len() && i > 0 ==> (result matches Ok(Locator::Slug(slug)) && slug@
            == segments[i - 1]),
        segments.len() == 0 ==> (result matches Ok(Locator::Slug(slug)) && slug@.len() == 0),
{
    lemma_first_address(segments, 0, i);
}

/// Stretches that are no addresses are passed over.
proof fn lemma_first_address(segments: Seq<Seq<char>>, from: int, i: int)
    requires
        0 <= from <= i <= segments.len(),
        forall|j: int|
            from <= j < i ==> !(begins_with(#[trigger] segments[j], "0x"@) || begins_with(
                segments[j],
                "0X"@,
            )) || fixed_bytes(segments[j], 20) is None,
    ensures
        first_address(segments, from) == first_address(segments, i),
    decreases i - from,
{
    if from < i {
        assert(segment_address(segments[from]) is None);
        lemma_first_address(segments, from + 1, i);
    }
}

/// What begins like an address has to be one; an address on the web is read off its path; and any
/// other text is a name to look up, without the white space around it.
pub proof fn law_locators(locator: Seq<char>, result: Result<Locator, SnipeError>)
    requires
        is_locator_result(locator, result),
    ensures
        ({
            let name = trimmed(locator);
            let hex = begins_with(name, "0x"@) || begins_with(name, "0X"@);
            let web = begins_with(name, "http://"@) || begins_with(name, "https://"@);
            &&& hex && fixed_bytes(name, 20) is None ==> (result matches Err(
                SnipeError::InvalidCollection(told),
            ) && told@ == name)
            &&& hex ==> (fixed_bytes(name, 20) matches Some(bytes) ==> (result matches Ok(
                Locator::Contract(address),
            ) && address@ == bytes))
            &&& !hex && web && url_parts(name) is None ==> (result matches Err(
                SnipeError::InvalidCollection(told),
            ) && told@ == name)
            &&& !hex && web ==> (url_parts(name) matches Some(url) ==> is_path_result(url.3, result))
            &&& !hex && !web ==> (result matches Ok(Locator::Slug(slug)) && slug@ == name)
        }),
{
}

/// A lookup that succeeds gives the first contract's address and no other.
pub proof fn law_lookup_gives_the_first_contract(
    slug: Seq<char>,
    status: u16,
    status_text: String,
    body: Json,
    items: Seq<Json>,
    address: Seq<u8>,
    result: Result<Address, SnipeError>,
)
    requires
        is_slug_result(slug, (SlugReply::Answer { status, status_text, body: Ok(body) }), result),
        200 <= status <= 299,
        body.member("contracts"@) is Some,
        body.member("contracts"@)->0.items() == Some(items),
        items.len() > 0,
        string_member(Some(items[0]), "address"@) == Some(checksum_text(address)),
        address.len() == 20,
    ensures
        result matches Ok(found) && found@ == address,
{
    law_address_text_parses(address);
}

/// No answer outside the two hundreds gives an address, whatever its body holds; each is told apart.
pub proof fn law_lookup_statuses(
    slug: Seq<char>,
    status: u16,
    status_text: String,
    body: Result<Json, String>,
    result: Result<Address, SnipeError>,
)
    requires
        is_slug_result(slug, (SlugReply::Answer { status, status_text, body }), result),
    ensures
        status < 200 || status >= 300 ==> (result matches Err(SnipeError::SlugLookup(_))),
        status == 401 || status == 403 ==> (result matches Err(SnipeError::SlugLookup(told)) && told@
            == "OpenSea refused the lookup (401/403) — the slug may be misspelled, or it wants an API key"@),
        status == 404 ==> (result matches Err(SnipeError::SlugLookup(told)) && told@
            == "no OpenSea collection called \""@ + slug + "\""@),
        status == 429 ==> (result matches Err(SnipeError::SlugLookup(told)) && told@
            == "OpenSea rate-limited the lookup — retry shortly"@),
        status != 401 && status != 403 && status != 404 && status != 429 && (status < 200 || status
            >= 300) ==> (result matches Err(SnipeError::SlugLookup(told)) && told@
            == "could not resolve \""@ + slug + "\": "@ + status_text@),
        200 <= status < 300 ==> (body matches Err(why) ==> (result matches Err(
            SnipeError::SlugLookup(told),
        ) && told@ == why@)),
{
}

/// A name is looked up at the marketplace, unchanged; so different names are looked up at different
/// places.
pub proof fn law_lookup_url(slug: Seq<char>, other: Seq<char>)
    ensures
        lookup_url(slug) == "https://api.opensea.io/api/v2/collections/"@ + slug,
        lookup_url(slug) == lookup_url(other) ==> slug == other,
{
    let head = "https://api.opensea.io/api/v2/collections/"@;
    assert((head + slug).skip(head.len() as int) == slug);
    assert((head + other).skip(head.len() as int) == other);
}

/// A body that names no contract gives no address, and the error says what is wrong with it.
pub proof fn law_bodies_without_contract(
    slug: Seq<char>,
    body: Json,
    result: Result<Address, SnipeError>,
)
    requires
        is_body_result(slug, body, result),
    ensures
        body.member("contracts"@) is None ==> (result matches Err(SnipeError::SlugLookup(told))
            && told@ == "no contracts listed for \""@ + slug + "\""@),
        body.member("contracts"@) matches Some(list) ==> {
            &&& list.items() is None ==> (result matches Err(SnipeError::SlugLookup(told)) && told@
                == "no contracts listed for \""@ + slug + "\""@)
            &&& list.items() matches Some(items) ==> {
                &&& items.len() == 0 ==> (result matches Err(SnipeError::SlugLookup(told)) && told@
                    == "no contracts listed for \""@ + slug + "\""@)
                &&& items.len() > 0 && string_member(Some(items[0]), "address"@) is None ==> (result
                    matches Err(SnipeError::SlugLookup(told)) && told@
                    == "malformed contract entry for \""@ + slug + "\""@)
                &&& items.len() > 0 ==> (string_member(Some(items[0]), "address"@) matches Some(text)
                    ==> (fixed_bytes(text, 20) is None ==> (result matches Err(
                    SnipeError::InvalidCollection(told),
                ) && told@ == text)))
            }
        },
{
}

} // verus!
