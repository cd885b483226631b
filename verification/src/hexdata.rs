//! Addresses, hashes and their hexadecimal notation.

use vstd::prelude::*;

verus! {

/// An account or contract address.
#[derive(Clone, Copy, Debug, PartialEq, Eq)]
pub struct Address {
    /// The twenty bytes, most significant first.
    pub bytes: [u8; 20],
}

impl View for Address {
    type V = Seq<u8>;

    open spec fn view(&self) -> Seq<u8> {
        self.bytes@
    }
}

/// A hash of 32 bytes.
#[derive(Clone, Copy, Debug, PartialEq, Eq)]
pub struct B256 {
    /// The 32 bytes, most significant first.
    pub bytes: [u8; 32],
}

impl View for B256 {
    type V = Seq<u8>;

    open spec fn view(&self) -> Seq<u8> {
        self.bytes@
    }
}

/// The lower-case hexadecimal digit of a number below sixteen.
pub open spec fn hex_char(n: int) -> char {
    if n < 10 {
        (48 + n) as char
    } else {
        (87 + n) as char
    }
}

/// Is this a hexadecimal digit, in either case?
pub open spec fn is_hex(c: char) -> bool {
    '0' <= c <= '9' || 'a' <= c <= 'f' || 'A' <= c <= 'F'
}

/// The number that a hexadecimal digit denotes.
pub open spec fn hex_value(c: char) -> int {
    if '0' <= c <= '9' {
        c as int - 48
    } else if 'a' <= c <= 'f' {
        c as int - 87
    } else {
        c as int - 55
    }
}

/// The `i`th half byte of a row of bytes.
pub open spec fn half_byte(bytes: Seq<u8>, i: int) -> int {
    if i % 2 == 0 {
        bytes[i / 2] as int / 16
    } else {
        bytes[i / 2] as int % 16
    }
}

/// Bytes in lower-case hexadecimal, two digits each.
pub open spec fn hex_text(bytes: Seq<u8>) -> Seq<char> {
    Seq::new(2 * bytes.len(), |i: int| hex_char(half_byte(bytes, i)))
}

/// Bytes in lower-case hexadecimal behind `0x`.
pub open spec fn prefixed_hex(bytes: Seq<u8>) -> Seq<char> {
    seq!['0', 'x'] + hex_text(bytes)
}

/// A text without the `0x` or `0X` that it may begin with.
pub open spec fn hex_digits(s: Seq<char>) -> Seq<char> {
    if s.len() >= 2 && s[0] == '0' && (s[1] == 'x' || s[1] == 'X') {
        s.skip(2)
    } else {
        s
    }
}

/// The `n` bytes that a text denotes: hexadecimal digits in either case, behind an optional `0x`
/// or `0X`, and exactly two for each byte.
pub open spec fn fixed_bytes(s: Seq<char>, n: nat) -> Option<Seq<u8>> {
    let digits = hex_digits(s);
    if digits.len() == 2 * n && (forall|i: int| 0 <= i < digits.len() ==> is_hex(#[trigger] digits[i])) {
        Some(
            Seq::new(
                n,
                |i: int| (hex_value(digits[2 * i]) * 16 + hex_value(digits[2 * i + 1])) as u8,
            ),
        )
    } else {
        None
    }
}

/// The Keccak-256 hash of a row of bytes.
pub uninterp spec fn keccak256_digest(data: Seq<u8>) -> Seq<u8>;

/// A digit in upper case, where it is a letter.
pub open spec fn raised(c: char) -> char {
    if 'a' <= c <= 'f' {
        (c as int - 32) as char
    } else {
        c
    }
}

/// The hash of an address's hexadecimal digits that settles the case of its letters.
pub open spec fn case_hash(address: Seq<u8>) -> Seq<u8> {
    keccak256_digest(Seq::new(2 * address.len(), |i: int| hex_text(address)[i] as u8))
}

/// An address in mixed-case hexadecimal: the `i`th digit is upper case where the `i`th half byte
/// of `case_hash` is eight or more.
pub open spec fn checksum_text(address: Seq<u8>) -> Seq<char> {
    seq!['0', 'x'] + Seq::new(
        2 * address.len(),
        |i: int|
            if half_byte(case_hash(address), i) >= 8 {
                raised(hex_text(address)[i])
            } else {
                hex_text(address)[i]
            },
    )
}

/// A hash's text parses to the hash.
pub proof fn law_hash_text_parses(hash: Seq<u8>)
    ensures
        fixed_bytes(prefixed_hex(hash), hash.len()) == Some(hash),
{
    let s = prefixed_hex(hash);
    let digits = hex_digits(s);
    assert(digits == hex_text(hash));
    assert forall|i: int| 0 <= i < digits.len() implies is_hex(#[trigger] digits[i]) by {
        assert(0 <= half_byte(hash, i) < 16);
    }
    let parsed = fixed_bytes(s, hash.len())->0;
    assert forall|i: int| 0 <= i < hash.len() implies parsed[i] == hash[i] by {
        assert(digits[2 * i] == hex_char(hash[i] as int / 16));
        assert(digits[2 * i + 1] == hex_char(hash[i] as int % 16));
    }
    assert(parsed == hash);
}

/// An address's text parses to the address, whatever the case of its letters.
pub proof fn law_address_text_parses(address: Seq<u8>)
    ensures
        fixed_bytes(checksum_text(address), address.len()) == Some(address),
{
    let s = checksum_text(address);
    let digits = hex_digits(s);
    assert(digits == s.skip(2));
    assert forall|i: int| 0 <= i < digits.len() implies is_hex(#[trigger] digits[i]) && hex_value(
        digits[i],
    ) == half_byte(address, i) by {
        assert(0 <= half_byte(address, i) < 16);
        assert(hex_text(address)[i] == hex_char(half_byte(address, i)));
    }
    let parsed = fixed_bytes(s, address.len())->0;
    assert forall|i: int| 0 <= i < address.len() implies parsed[i] == address[i] by {
        assert(hex_value(digits[2 * i]) == address[i] as int / 16);
        assert(hex_value(digits[2 * i + 1]) == address[i] as int % 16);
    }
    assert(parsed == address);
}

/// Calls `Address::from_str` of `alloy_primitives`: it takes hexadecimal digits for twenty bytes,
/// behind an optional `0x` or `0X`, in any mixture of cases, and nothing else.
#[verifier::external_body]
pub(crate) fn parse_address(text: &str) -> (address: Option<Address>)
    ensures
        address matches Some(a) ==> fixed_bytes(text@, 20) == Some(a@),
        address is None <==> fixed_bytes(text@, 20) is None,
{
    text.parse::<alloy_primitives::Address>().ok().map(|a| Address { bytes: a.into_array() })
}

/// Calls `B256::from_str` of `alloy_primitives`: it takes hexadecimal digits for 32 bytes, behind
/// an optional `0x` or `0X`, in either case, and nothing else.
#[verifier::external_body]
pub(crate) fn parse_hash(text: &str) -> (hash: Option<B256>)
    ensures
        hash matches Some(h) ==> fixed_bytes(text@, 32) == Some(h@),
        hash is None <==> fixed_bytes(text@, 32) is None,
{
    text.parse::<alloy_primitives::B256>().ok().map(|h| B256 { bytes: h.0 })
}

/// Calls `Display` of `alloy_primitives`'s `Address`: `0x` and the digits, whose case carries the
/// checksum.
#[verifier::external_body]
pub(crate) fn address_text(address: Address) -> (text: String)
    ensures
        text@ == checksum_text(address@),
{
    alloy_primitives::Address::from(address.bytes).to_string()
}

/// Calls `Display` of `alloy_primitives`'s `B256`: `0x` and the digits in lower case.
#[verifier::external_body]
pub(crate) fn hash_text(hash: B256) -> (text: String)
    ensures
        text@ == prefixed_hex(hash@),
{
    alloy_primitives::B256::from(hash.bytes).to_string()
}

/// Calls `alloy_primitives::keccak256`: the hash of the bytes, which is 32 bytes long.
#[verifier::external_body]
pub(crate) fn keccak256(data: &[u8]) -> (hash: B256)
    ensures
        hash@ == keccak256_digest(data@),
{
    B256 { bytes: alloy_primitives::keccak256(data).0 }
}

/// Calls `hex::encode`: two lower-case digits for each byte.
#[verifier::external_body]
pub(crate) fn encode_hex(data: &[u8]) -> (text: String)
    ensures
        text@ == hex_text(data@),
{
    hex::encode(data)
}

impl Address {
    /// Reads an address in hexadecimal.
    pub fn parse(text: &str) -> (address: Option<Address>)
        ensures
            address matches Some(a) ==> fixed_bytes(text@, 20) == Some(a@),
            address is None <==> fixed_bytes(text@, 20) is None,
    {
        parse_address(text)
    }

    /// The address in hexadecimal, with its checksum.
    pub fn to_text(self) -> (text: String)
        ensures
            text@ == checksum_text(self@),
    {
        address_text(self)
    }
}

impl B256 {
    /// Reads a hash in hexadecimal.
    pub fn parse(text: &str) -> (hash: Option<B256>)
        ensures
            hash matches Some(h) ==> fixed_bytes(text@, 32) == Some(h@),
            hash is None <==> fixed_bytes(text@, 32) is None,
    {
        parse_hash(text)
    }

    /// The hash in hexadecimal.
    pub fn to_text(self) -> (text: String)
        ensures
            text@ == prefixed_hex(self@),
    {
        hash_text(self)
    }
}

/// Tells whether two hashes are the same.
pub fn same_hash(a: &B256, b: &B256) -> (same: bool)
    ensures
        same == (a@ == b@),
{
    let mut i: usize = 0;
    while i < 32
        invariant
            i <= 32,
            forall|j: int| 0 <= j < i ==> a@[j] == b@[j],
        decreases 32 - i,
    {
        if a.bytes[i] != b.bytes[i] {
            assert(a@[i as int] != b@[i as int]);
            return false;
        }
        i += 1;
    }
    assert(a@ == b@);
    true
}

/// Each byte is two digits of `0123456789abcdef`, the greater half first, behind `0x`.
pub proof fn law_hex_digits(bytes: Seq<u8>, i: int)
    requires
        0 <= i < bytes.len(),
    ensures
        prefixed_hex(bytes).len() == 2 + 2 * bytes.len(),
        prefixed_hex(bytes)[0] == '0',
        prefixed_hex(bytes)[1] == 'x',
        prefixed_hex(bytes)[2 + 2 * i] == "0123456789abcdef"@[bytes[i] as int / 16],
        prefixed_hex(bytes)[3 + 2 * i] == "0123456789abcdef"@[bytes[i] as int % 16],
        hex_text(bytes) == prefixed_hex(bytes).skip(2),
{
    reveal_strlit("0123456789abcdef");
    assert((2 * i) / 2 == i && (2 * i) % 2 == 0);
    assert((2 * i + 1) / 2 == i && (2 * i + 1) % 2 == 1);
    assert(hex_text(bytes) == prefixed_hex(bytes).skip(2));
}

/// What is no hexadecimal, or of another length, is no address and no hash.
pub proof fn law_bad_hex_is_refused(s: Seq<char>, n: nat, i: int)
    ensures
        s.len() != 2 * n && s.len() != 2 * n + 2 ==> fixed_bytes(s, n) is None,
        2 <= i < s.len() && !('0' <= s[i] <= '9' || 'a' <= s[i] <= 'f' || 'A' <= s[i] <= 'F')
            ==> fixed_bytes(s, n) is None,
        s.len() == 2 * n + 2 && !(s[0] == '0' && (s[1] == 'x' || s[1] == 'X')) ==> fixed_bytes(s, n)
            is None,
{
    if 2 <= i < s.len() && !is_hex(s[i]) {
        let digits = hex_digits(s);
        if digits == s {
            assert(!is_hex(digits[i]));
        } else {
            assert(digits[i - 2] == s[i]);
        }
    }
}

/// The case of the digits does not matter, nor whether `0x` stands before them.
pub proof fn law_hex_case_does_not_matter(s: Seq<char>, t: Seq<char>, n: nat)
    requires
        s.len() == t.len(),
        forall|i: int|
            0 <= i < s.len() ==> #[trigger] s[i] == t[i] || ('A' <= s[i] <= 'F' && t[i] as int
                == s[i] as int + 32),
        s.len() == 2 * n,
        s.len() > 1 ==> s[1] != 'x' && s[1] != 'X' && t[1] != 'x' && t[1] != 'X',
    ensures
        fixed_bytes(s, n) == fixed_bytes(t, n),
        fixed_bytes(seq!['0', 'x'] + s, n) == fixed_bytes(s, n),
        fixed_bytes(seq!['0', 'X'] + s, n) == fixed_bytes(s, n),
{
    assert((seq!['0', 'x'] + s).skip(2) == s);
    assert((seq!['0', 'X'] + s).skip(2) == s);
    assert(hex_digits(s) == s);
    assert(hex_digits(t) == t);
    assert forall|i: int| 0 <= i < s.len() implies is_hex(#[trigger] s[i]) == is_hex(t[i])
        && hex_value(s[i]) == hex_value(t[i]) by {}
    if fixed_bytes(s, n) is Some {
        assert forall|i: int| 0 <= i < t.len() implies is_hex(#[trigger] t[i]) by {
            assert(is_hex(s[i]));
        }
        assert(fixed_bytes(s, n)->0 == fixed_bytes(t, n)->0);
    } else {
        let i = choose|i: int| 0 <= i < s.len() && !is_hex(#[trigger] s[i]);
        assert(!is_hex(t[i]));
    }
}

/// An address's text is its plain hexadecimal but for the case of the letters, which its own hash
/// settles: a letter is raised where the half byte of the hash at its place is eight or more.
pub proof fn law_checksum_only_raises_letters(address: Seq<u8>, i: int)
    requires
        0 <= i < 2 * address.len(),
    ensures
        checksum_text(address).len() == 2 + 2 * address.len(),
        checksum_text(address).take(2) == seq!['0', 'x'],
        ({
            let plain = hex_text(address)[i];
            let shown = checksum_text(address)[i + 2];
            let hash = case_hash(address)[i / 2] as int;
            let half = if i % 2 == 0 {
                hash / 16
            } else {
                hash % 16
            };
            &&& '0' <= plain <= '9' ==> shown == plain
            &&& 'a' <= plain <= 'f' && half < 8 ==> shown == plain
            &&& 'a' <= plain <= 'f' && half >= 8 ==> shown as int == plain as int - 32
        }),
{
    assert(checksum_text(address).take(2) == seq!['0', 'x']);
}

} // verus!
