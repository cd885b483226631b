//! Web addresses, as far as the sniper reads them.

use vstd::prelude::*;

use crate::text::{begins_with, contains, contents, has_part, occurs_at, same};

verus! {

/// A parsed web address.
#[derive(Debug, PartialEq, Eq)]
pub struct Url {
    /// The whole address, normalised.
    pub text: String,
    /// The scheme, in lower case.
    pub scheme: String,
    /// The host, where there is one.
    pub host: Option<String>,
    /// The stretches between the slashes of the path.
    pub segments: Vec<String>,
}

/// The contents of an optional string.
pub open spec fn optional(s: Option<String>) -> Option<Seq<char>> {
    match s {
        Some(text) => Some(text@),
        None => None,
    }
}

/// The parts of a web address: the whole of it, the scheme, the host and the path's segments.
pub type UrlParts = (Seq<char>, Seq<char>, Option<Seq<char>>, Seq<Seq<char>>);

impl View for Url {
    type V = UrlParts;

    open spec fn view(&self) -> UrlParts {
        (self.text@, self.scheme@, optional(self.host), contents(self.segments@))
    }
}

/// Copies a list of strings.
pub fn copy_strings(list: &Vec<String>) -> (copy: Vec<String>)
    ensures
        contents(copy@) == contents(list@),
{
    let mut copy: Vec<String> = Vec::new();
    let mut i: usize = 0;
    while i < list.len()
        invariant
            i <= list@.len(),
            contents(copy@) == contents(list@).take(i as int),
        decreases list@.len() - i,
    {
        let ghost before = contents(copy@);
        copy.push(list[i].clone());
        assert(contents(copy@) == before.push(list@[i as int]@));
        i += 1;
        assert(contents(list@).take(i as int) == contents(list@).take(i - 1).push(list@[i - 1]@));
    }
    assert(contents(list@).take(i as int) == contents(list@));
    copy
}

impl Clone for Url {
    fn clone(&self) -> (copy: Self)
        ensures
            copy@ == self@,
    {
        let host = match &self.host {
            Some(host) => Some(host.clone()),
            None => None,
        };
        Url {
            text: self.text.clone(),
            scheme: self.scheme.clone(),
            host,
            segments: copy_strings(&self.segments),
        }
    }
}

/// May requests go to this address? Either over HTTPS, or over HTTP to the machine itself.
pub open spec fn is_safe(url: UrlParts) -> bool {
    ||| url.1 == "https"@
    ||| url.1 == "http"@ && match url.2 {
        Some(host) => host == "localhost"@ || host == "127.0.0.1"@ || host == "[::1]"@,
        None => false,
    }
}

/// Does the host's name call it a sequencer? Such an endpoint takes transactions but answers no
/// reads.
pub open spec fn is_sequencer(url: UrlParts) -> bool {
    match url.2 {
        Some(host) => has_part(host, "sequencer"@),
        None => false,
    }
}

/// The parts of each address.
pub open spec fn parts(urls: Seq<Url>) -> Seq<UrlParts> {
    Seq::new(urls.len(), |i: int| urls[i]@)
}

/// What the URL parser makes of a text: the normalised address, the scheme, the host and the path's
/// segments; nothing where the text is no absolute URL.
pub uninterp spec fn url_parts(input: Seq<char>) -> Option<(Seq<char>, Seq<char>, Option<Seq<char>>, Seq<Seq<char>>)>;

/// Is this a lower-case letter?
pub open spec fn is_letter(c: char) -> bool {
    'a' <= c <= 'z'
}

/// Is this a host name of lower-case letters, with dots and hyphens between two of them?
pub open spec fn plain_host(host: Seq<char>) -> bool {
    &&& host.len() > 0
    &&& forall|i: int|
        0 <= i < host.len() ==> {
            ||| is_letter(#[trigger] host[i])
            ||| {
                &&& host[i] == '.' || host[i] == '-'
                &&& 0 < i < host.len() - 1
                &&& is_letter(host[i - 1])
                &&& is_letter(host[i + 1])
            }
        }
}

/// Is the text `https://`, then a plain host, then nothing or a slash and whatever else?
pub open spec fn names_host(input: Seq<char>, host: Seq<char>) -> bool {
    &&& plain_host(host)
    &&& begins_with(input, "https://"@ + host)
    &&& input.len() == 8 + host.len() || input[8 + host.len() as int] == '/'
    &&& input.len() <= 0x100_0000
}

/// Calls `Url::parse` of the `url` crate and reads `as_str`, `scheme`, `host_str` and
/// `path_segments` off the result. What it makes of a text is named by `url_parts`. A text that
/// begins with `https:` has that scheme where it parses at all, and a plain HTTPS address always
/// parses, to the host that it names.
#[verifier::external_body]
pub(crate) fn parse_url(input: &str) -> (url: Option<Url>)
    ensures
        url matches Some(u) ==> url_parts(input@) == Some(u@),
        url is None <==> url_parts(input@) is None,
        url matches Some(u) ==> (begins_with(input@, "https:"@) ==> u.scheme@ == "https"@),
        forall|host: Seq<char>| #[trigger]
            names_host(input@, host) ==> {
                &&& url is Some
                &&& url->0.host is Some
                &&& url->0.host->0@ == host
            },
{
    url::Url::parse(input).ok().map(|u| Url {
        text: u.as_str().to_owned(),
        scheme: u.scheme().to_owned(),
        host: u.host_str().map(|host| host.to_owned()),
        segments: u.path_segments().into_iter().flatten().map(|s| s.to_owned()).collect(),
    })
}

impl Url {
    /// Parses a web address.
    pub fn parse(input: &str) -> (url: Option<Url>)
        ensures
            url matches Some(u) ==> url_parts(input@) == Some(u@),
            url is None <==> url_parts(input@) is None,
            url matches Some(u) ==> (begins_with(input@, "https:"@) ==> u.scheme@ == "https"@),
            forall|host: Seq<char>| #[trigger]
                names_host(input@, host) ==> {
                    &&& url is Some
                    &&& url->0.host is Some
                    &&& url->0.host->0@ == host
                },
    {
        parse_url(input)
    }

    /// Tells whether the host's name calls it a sequencer.
    pub fn names_sequencer(&self) -> (yes: bool)
        ensures
            yes == is_sequencer(self@),
    {
        match &self.host {
            Some(host) => contains(host.as_str(), "sequencer"),
            None => false,
        }
    }
}

/// Tells whether requests may go to an address: over HTTPS, or over HTTP to the machine itself.
pub fn validate_rpc_url(url: &Url) -> (valid: bool)
    ensures
        valid == is_safe(url@),
{
    if same(url.scheme.as_str(), "https") {
        return true;
    }
    if same(url.scheme.as_str(), "http") {
        return match &url.host {
            Some(host) => same(host.as_str(), "localhost") || same(host.as_str(), "127.0.0.1")
                || same(host.as_str(), "[::1]"),
            None => false,
        };
    }
    false
}

/// Requests go out over HTTPS to anybody, over HTTP to the machine itself and to nobody else, and
/// over nothing else at all.
pub proof fn law_safe_addresses(url: UrlParts)
    ensures
        url.1 == "https"@ ==> is_safe(url),
        url.1 != "https"@ && url.1 != "http"@ ==> !is_safe(url),
        url.1 == "http"@ && url.2 is None ==> !is_safe(url),
        url.1 == "http"@ ==> (url.2 matches Some(host) ==> (is_safe(url) <==> host == "localhost"@
            || host == "127.0.0.1"@ || host == "[::1]"@)),
{
    reveal_strlit("http");
    reveal_strlit("https");
    assert("http"@.len() == 4);
    assert("https"@.len() == 5);
}

/// A host is a sequencer exactly where the word stands somewhere in its name.
pub proof fn law_sequencer_names(url: UrlParts, before: Seq<char>, after: Seq<char>)
    ensures
        url.2 == Some(before + "sequencer"@ + after) ==> is_sequencer(url),
        url.2 is None ==> !is_sequencer(url),
        url.2 matches Some(host) ==> (is_sequencer(url) ==> exists|k: int|
            0 <= k <= host.len() - 9 && #[trigger] host.subrange(k, k + 9) == "sequencer"@),
{
    reveal_strlit("sequencer");
    assert("sequencer"@.len() == 9);
    let name = before + "sequencer"@ + after;
    let k = before.len() as int;
    assert(name.subrange(k, k + 9) == "sequencer"@);
    assert(occurs_at(name, "sequencer"@, k));
    if let Some(host) = url.2 {
        if is_sequencer(url) {
            let j = choose|j: int| occurs_at(host, "sequencer"@, j);
            assert(host.subrange(j, j + 9) == "sequencer"@);
        }
    }
}

} // verus!
