//! Text as sequences of characters: trimming, splitting, searching, decimal numbers.

use vstd::prelude::*;

verus! {

/// `String::push` appends the given character to the end of the string.
pub assume_specification[ String::push ](s: &mut String, c: char)
    ensures
        final(s)@ == old(s)@.push(c),
;

/// The Unicode `White_Space` property, as the trimming functions use it.
pub open spec fn is_white(c: char) -> bool {
    let n = c as u32;
    ||| 0x9 <= n <= 0xd
    ||| n == 0x20
    ||| n == 0x85
    ||| n == 0xa0
    ||| n == 0x1680
    ||| 0x2000 <= n <= 0x200a
    ||| n == 0x2028
    ||| n == 0x2029
    ||| n == 0x202f
    ||| n == 0x205f
    ||| n == 0x3000
}

/// Tells whether a character is white space.
pub fn char_is_white(c: char) -> (white: bool)
    ensures
        white == is_white(c),
{
    let n: u32 = c as u32;
    (0x9 <= n && n <= 0xd) || n == 0x20 || n == 0x85 || n == 0xa0 || n == 0x1680 || (0x2000 <= n
        && n <= 0x200a) || n == 0x2028 || n == 0x2029 || n == 0x202f || n == 0x205f || n == 0x3000
}

/// The text without its leading white space.
pub open spec fn trim_start(s: Seq<char>) -> Seq<char>
    decreases s.len(),
{
    if s.len() > 0 && is_white(s[0]) {
        trim_start(s.drop_first())
    } else {
        s
    }
}

/// The text without its trailing white space.
pub open spec fn trim_end(s: Seq<char>) -> Seq<char>
    decreases s.len(),
{
    if s.len() > 0 && is_white(s.last()) {
        trim_end(s.drop_last())
    } else {
        s
    }
}

/// The text without white space at either end.
pub open spec fn trimmed(s: Seq<char>) -> Seq<char> {
    trim_end(trim_start(s))
}

/// Collects the characters of a string.
pub fn to_chars(s: &str) -> (chars: Vec<char>)
    ensures
        chars@ == s@,
{
    let mut chars: Vec<char> = Vec::new();
    for c in it: s.chars()
        invariant
            it.seq() == s@,
            chars@ == s@.take(it.index() as int),
    {
        chars.push(c);
        assert(s@.take(it.index() + 1) == s@.take(it.index() as int).push(c));
    }
    assert(s@.take(s@.len() as int) == s@);
    chars
}

/// Builds a string out of part of a character list.
pub fn from_chars(chars: &Vec<char>, from: usize, to: usize) -> (s: String)
    requires
        from <= to <= chars@.len(),
    ensures
        s@ == chars@.subrange(from as int, to as int),
{
    let mut s: String = String::new();
    let mut i: usize = from;
    while i < to
        invariant
            from <= i <= to <= chars@.len(),
            s@ == chars@.subrange(from as int, i as int),
        decreases to - i,
    {
        s.push(chars[i]);
        i += 1;
        assert(chars@.subrange(from as int, i as int) == chars@.subrange(
            from as int,
            i - 1,
        ).push(chars@[i - 1]));
    }
    s
}

/// The white space around a text removed.
pub fn trim(s: &str) -> (t: &str)
    ensures
        t@ == trimmed(s@),
{
    let chars = to_chars(s);
    let n: usize = chars.len();
    let mut from: usize = 0;
    assert(s@.skip(0) == s@);
    while from < n && char_is_white(chars[from])
        invariant
            chars@ == s@,
            n == s@.len(),
            from <= n,
            trim_start(s@) == trim_start(s@.skip(from as int)),
        decreases n - from,
    {
        assert(s@.skip(from as int).drop_first() == s@.skip(from + 1));
        from += 1;
    }
    let ghost head = s@.skip(from as int);
    assert(trim_start(s@) == head);
    let mut to: usize = n;
    assert(head.take(head.len() as int) == head);
    while from < to && char_is_white(chars[to - 1])
        invariant
            chars@ == s@,
            n == s@.len(),
            from <= to <= n,
            head == s@.skip(from as int),
            trim_end(head) == trim_end(head.take(to - from)),
        decreases to,
    {
        assert(head.take(to - from).drop_last() == head.take(to - from - 1));
        to -= 1;
    }
    assert(head.take(to - from) == s@.subrange(from as int, to as int));
    s.substring_char(from, to)
}

/// An ASCII upper-case letter turned into the lower-case one; any other character as it is.
pub open spec fn lower_char(c: char) -> char {
    if 'A' <= c <= 'Z' {
        (c as u32 + 32) as char
    } else {
        c
    }
}

/// Every ASCII upper-case letter of a text turned into the lower-case one.
pub open spec fn lowered(s: Seq<char>) -> Seq<char> {
    Seq::new(s.len(), |i: int| lower_char(s[i]))
}

/// Lower-cases one ASCII letter.
pub fn char_to_lower(c: char) -> (l: char)
    ensures
        l == lower_char(c),
{
    if 'A' <= c && c <= 'Z' {
        ((c as u8) + 32) as char
    } else {
        c
    }
}

/// Lower-cases the ASCII letters of a text.
pub fn to_ascii_lowercase(s: &str) -> (l: String)
    ensures
        l@ == lowered(s@),
{
    let chars = to_chars(s);
    let mut l: String = String::new();
    let mut i: usize = 0;
    while i < chars.len()
        invariant
            chars@ == s@,
            i <= chars@.len(),
            l@ == lowered(s@).take(i as int),
        decreases chars@.len() - i,
    {
        l.push(char_to_lower(chars[i]));
        i += 1;
        assert(lowered(s@).take(i as int) == lowered(s@).take(i - 1).push(lower_char(s@[i - 1])));
    }
    assert(lowered(s@).take(i as int) == lowered(s@));
    l
}

/// Does `part` stand in `s` at index `k`?
pub open spec fn occurs_at(s: Seq<char>, part: Seq<char>, k: int) -> bool {
    0 <= k && k + part.len() <= s.len() && s.subrange(k, k + part.len()) == part
}

/// Does `part` stand anywhere in `s`?
pub open spec fn has_part(s: Seq<char>, part: Seq<char>) -> bool {
    exists|k: int| occurs_at(s, part, k)
}

/// Does `s` begin with `head`?
pub open spec fn begins_with(s: Seq<char>, head: Seq<char>) -> bool {
    occurs_at(s, head, 0)
}

/// Does `s` end with `tail`?
pub open spec fn finishes_with(s: Seq<char>, tail: Seq<char>) -> bool {
    occurs_at(s, tail, s.len() - tail.len())
}

/// Compares a stretch of one character list with the whole of another.
fn stands_at(chars: &Vec<char>, part: &Vec<char>, k: usize) -> (found: bool)
    ensures
        found == occurs_at(chars@, part@, k as int),
{
    if k > chars.len() || part.len() > chars.len() - k {
        return false;
    }
    let mut i: usize = 0;
    while i < part.len()
        invariant
            i <= part@.len(),
            k + part@.len() <= chars.len(),
            forall|j: int| 0 <= j < i ==> chars@[k + j] == part@[j],
        decreases part@.len() - i,
    {
        if chars[k + i] != part[i] {
            assert(chars@.subrange(k as int, k + part@.len())[i as int] != part@[i as int]);
            return false;
        }
        i += 1;
    }
    assert(chars@.subrange(k as int, k + part@.len()) == part@);
    true
}

/// Tells whether a text holds another one.
pub fn contains(s: &str, part: &str) -> (found: bool)
    ensures
        found == has_part(s@, part@),
{
    let chars = to_chars(s);
    let wanted = to_chars(part);
    if wanted.len() > chars.len() {
        return false;
    }
    let last: usize = chars.len() - wanted.len();
    let mut k: usize = 0;
    loop
        invariant
            chars@ == s@,
            wanted@ == part@,
            last == s@.len() - part@.len(),
            k <= last,
            forall|j: int| 0 <= j < k ==> !occurs_at(s@, part@, j),
        decreases last - k,
    {
        if stands_at(&chars, &wanted, k) {
            return true;
        }
        if k == last {
            return false;
        }
        k += 1;
    }
}

/// Tells whether a text begins with another one.
pub fn starts_with(s: &str, head: &str) -> (found: bool)
    ensures
        found == begins_with(s@, head@),
{
    stands_at(&to_chars(s), &to_chars(head), 0)
}

/// Tells whether a text ends with another one.
pub fn ends_with(s: &str, tail: &str) -> (found: bool)
    ensures
        found == finishes_with(s@, tail@),
{
    let chars = to_chars(s);
    let wanted = to_chars(tail);
    if wanted.len() > chars.len() {
        return false;
    }
    stands_at(&chars, &wanted, chars.len() - wanted.len())
}

/// Tells whether two texts are the same.
pub fn same(a: &str, b: &str) -> (eq: bool)
    ensures
        eq == (a@ == b@),
{
    let left = to_chars(a);
    let right = to_chars(b);
    if left.len() != right.len() {
        return false;
    }
    proof {
        assert(left@.subrange(0, left@.len() as int) == left@);
    }
    stands_at(&left, &right, 0)
}

/// What follows a prefix, where the text begins with it.
pub open spec fn without_prefix(s: Seq<char>, head: Seq<char>) -> Option<Seq<char>> {
    if begins_with(s, head) {
        Some(s.skip(head.len() as int))
    } else {
        None
    }
}

/// Takes a prefix off a text.
pub fn strip_prefix<'a>(s: &'a str, head: &str) -> (rest: Option<&'a str>)
    ensures
        rest matches Some(r) ==> without_prefix(s@, head@) == Some(r@),
        rest is None <==> without_prefix(s@, head@) is None,
{
    if starts_with(s, head) {
        let from: usize = to_chars(head).len();
        let to: usize = to_chars(s).len();
        assert(s@.skip(from as int) == s@.subrange(from as int, to as int));
        Some(s.substring_char(from, to))
    } else {
        None
    }
}

/// The index of the first `c` at or after `from`; the length where there is none.
pub open spec fn next_index(s: Seq<char>, c: char, from: int) -> int
    decreases s.len() - from,
{
    if from >= s.len() {
        s.len() as int
    } else if s[from] == c {
        from
    } else {
        next_index(s, c, from + 1)
    }
}

/// `next_index` lands on the first occurrence.
pub proof fn lemma_next_index(s: Seq<char>, c: char, from: int)
    requires
        0 <= from <= s.len(),
    ensures
        from <= next_index(s, c, from) <= s.len(),
        forall|j: int| from <= j < next_index(s, c, from) ==> s[j] != c,
        next_index(s, c, from) < s.len() ==> s[next_index(s, c, from)] == c,
    decreases s.len() - from,
{
    if from < s.len() && s[from] != c {
        lemma_next_index(s, c, from + 1);
    }
}

/// Finds the first `c` at or after `from`.
fn find_from(chars: &Vec<char>, c: char, from: usize) -> (at: usize)
    requires
        from <= chars@.len(),
    ensures
        at == next_index(chars@, c, from as int),
        from <= at <= chars@.len(),
{
    let mut at: usize = from;
    while at < chars.len() && chars[at] != c
        invariant
            from <= at <= chars@.len(),
            next_index(chars@, c, from as int) == next_index(chars@, c, at as int),
        decreases chars@.len() - at,
    {
        at += 1;
    }
    at
}

/// The text before the first `c` and the text after it, where `c` occurs.
pub open spec fn cut(s: Seq<char>, c: char) -> Option<(Seq<char>, Seq<char>)> {
    let i = next_index(s, c, 0);
    if i < s.len() {
        Some((s.take(i), s.skip(i + 1)))
    } else {
        None
    }
}

/// Splits a text at the first `c`.
pub fn split_once<'a>(s: &'a str, c: char) -> (parts: Option<(&'a str, &'a str)>)
    ensures
        parts matches Some((a, b)) ==> cut(s@, c) == Some((a@, b@)),
        parts is None <==> cut(s@, c) is None,
{
    let chars = to_chars(s);
    let i: usize = find_from(&chars, c, 0);
    if i < chars.len() {
        assert(s@.take(i as int) == s@.subrange(0, i as int));
        assert(s@.skip(i + 1) == s@.subrange(i + 1, s@.len() as int));
        Some((s.substring_char(0, i), s.substring_char(i + 1, chars.len())))
    } else {
        None
    }
}

/// The stretches between the `c`s of a text from index `from` on: one more than there are `c`s.
pub open spec fn pieces_from(s: Seq<char>, c: char, from: int) -> Seq<Seq<char>>
    decreases s.len() - from,
    when 0 <= from <= s.len()
    via pieces_from_shrinks
{
    let i = next_index(s, c, from);
    if i >= s.len() {
        seq![s.skip(from)]
    } else {
        seq![s.subrange(from, i)] + pieces_from(s, c, i + 1)
    }
}

#[via_fn]
proof fn pieces_from_shrinks(s: Seq<char>, c: char, from: int) {
    lemma_next_index(s, c, from);
}

/// The stretches between the `c`s of a text.
pub open spec fn pieces(s: Seq<char>, c: char) -> Seq<Seq<char>> {
    pieces_from(s, c, 0)
}

/// What stands in front shifts where a character is found.
proof fn lemma_next_index_behind(head: Seq<char>, tail: Seq<char>, c: char, k: int)
    requires
        0 <= k <= tail.len(),
    ensures
        next_index(head + tail, c, head.len() + k) == head.len() + next_index(tail, c, k),
    decreases tail.len() - k,
{
    if k < tail.len() {
        assert((head + tail)[head.len() + k] == tail[k]);
        if tail[k] != c {
            lemma_next_index_behind(head, tail, c, k + 1);
        }
    }
}

/// What stands in front does not matter to the pieces behind it.
proof fn lemma_pieces_behind(head: Seq<char>, tail: Seq<char>, c: char, k: int)
    requires
        0 <= k <= tail.len(),
    ensures
        pieces_from(head + tail, c, head.len() + k) == pieces_from(tail, c, k),
    decreases tail.len() - k,
{
    let s = head + tail;
    lemma_next_index(tail, c, k);
    lemma_next_index_behind(head, tail, c, k);
    let i = next_index(tail, c, k);
    if i >= tail.len() {
        assert(s.skip(head.len() + k) == tail.skip(k));
    } else {
        lemma_pieces_behind(head, tail, c, i + 1);
        assert(s.subrange(head.len() + k, head.len() + i) == tail.subrange(k, i));
    }
}

/// A text without `c` is its own only piece.
pub proof fn lemma_single_piece(s: Seq<char>, c: char)
    requires
        forall|i: int| 0 <= i < s.len() ==> s[i] != c,
    ensures
        pieces(s, c) == seq![s],
{
    lemma_next_index(s, c, 0);
    assert(s.skip(0) == s);
}

/// A text without `c`, put in front of another one with a `c` between them, is one more piece.
pub proof fn lemma_piece_in_front(first: Seq<char>, rest: Seq<char>, c: char)
    requires
        forall|i: int| 0 <= i < first.len() ==> first[i] != c,
    ensures
        pieces(first + seq![c] + rest, c) == seq![first] + pieces(rest, c),
{
    let head = first + seq![c];
    let s = head + rest;
    let i = next_index(s, c, 0);
    lemma_next_index(s, c, 0);
    assert(s[first.len() as int] == c);
    if i < first.len() {
        assert(s[i] == first[i]);
    }
    assert(i == first.len());
    assert(s.subrange(0, i) == first);
    lemma_pieces_behind(head, rest, c, 0);
}

/// The contents of a list of strings.
pub open spec fn contents(v: Seq<String>) -> Seq<Seq<char>> {
    Seq::new(v.len(), |i: int| v[i]@)
}

/// Splits a text at every `c`.
pub fn split(s: &str, c: char) -> (parts: Vec<String>)
    ensures
        contents(parts@) == pieces(s@, c),
{
    let chars = to_chars(s);
    let mut parts: Vec<String> = Vec::new();
    let mut from: usize = 0;
    assert(contents(parts@) + pieces_from(s@, c, 0) == pieces(s@, c));
    loop
        invariant
            chars@ == s@,
            from <= s@.len(),
            contents(parts@) + pieces_from(s@, c, from as int) == pieces(s@, c),
        decreases s@.len() - from,
    {
        let i: usize = find_from(&chars, c, from);
        let ghost before = contents(parts@);
        parts.push(from_chars(&chars, from, i));
        assert(contents(parts@) == before.push(s@.subrange(from as int, i as int)));
        if i == chars.len() {
            assert(s@.subrange(from as int, i as int) == s@.skip(from as int));
            assert(contents(parts@) == before + seq![s@.skip(from as int)]);
            return parts;
        }
        proof {
            assert(contents(parts@) + pieces_from(s@, c, i + 1) == before + (seq![
                s@.subrange(from as int, i as int),
            ] + pieces_from(s@, c, i + 1)));
        }
        from = i + 1;
    }
}

/// The character of a decimal digit.
pub open spec fn digit_char(d: nat) -> char {
    (48 + d) as char
}

/// A number in decimal notation, without leading zeros.
pub open spec fn decimal(n: nat) -> Seq<char>
    decreases n,
{
    if n < 10 {
        seq![digit_char(n)]
    } else {
        decimal(n / 10).push(digit_char(n % 10))
    }
}

/// Is this one of `0` to `9`?
pub open spec fn is_digit(c: char) -> bool {
    '0' <= c <= '9'
}

/// Are these digits alone?
pub open spec fn all_digits(s: Seq<char>) -> bool {
    forall|i: int| 0 <= i < s.len() ==> is_digit(#[trigger] s[i])
}

/// The number that a row of digits denotes.
pub open spec fn digits_value(s: Seq<char>) -> nat
    decreases s.len(),
{
    if s.len() == 0 {
        0
    } else {
        digits_value(s.drop_last()) * 10 + (s.last() as u32 - 48) as nat
    }
}

/// The number that a text denotes, where it is an optional `+` and then digits, and at most `max`.
pub open spec fn unsigned_value(s: Seq<char>, max: nat) -> Option<nat> {
    let body = if s.len() > 0 && s[0] == '+' {
        s.skip(1)
    } else {
        s
    };
    if body.len() > 0 && all_digits(body) && digits_value(body) <= max {
        Some(digits_value(body))
    } else {
        None
    }
}

/// The number that a text denotes, where it is an optional sign and then digits, within 64 bits.
pub open spec fn signed_value(s: Seq<char>) -> Option<int> {
    if s.len() > 0 && s[0] == '-' {
        let body = s.skip(1);
        if body.len() > 0 && all_digits(body) && digits_value(body) <= -(i64::MIN as int) {
            Some(-(digits_value(body) as int))
        } else {
            None
        }
    } else {
        match unsigned_value(s, i64::MAX as nat) {
            Some(v) => Some(v as int),
            None => None,
        }
    }
}

/// More digits never denote a smaller number.
proof fn lemma_digits_value_grows(s: Seq<char>, k: int)
    requires
        0 <= k <= s.len(),
        all_digits(s),
    ensures
        digits_value(s.take(k)) <= digits_value(s),
    decreases s.len(),
{
    if k == s.len() {
        assert(s.take(k) == s);
    } else {
        assert(s.drop_last().take(k) == s.take(k));
        assert(all_digits(s.drop_last()));
        lemma_digits_value_grows(s.drop_last(), k);
    }
}

/// Reading back a number's decimal notation gives the number.
pub proof fn lemma_decimal_reads_back(n: nat)
    ensures
        decimal(n).len() > 0,
        all_digits(decimal(n)),
        digits_value(decimal(n)) == n,
    decreases n,
{
    if n >= 10 {
        lemma_decimal_reads_back(n / 10);
        let d = decimal(n);
        assert(d.drop_last() == decimal(n / 10));
    } else {
        let d = decimal(n);
        assert(d.drop_last() == Seq::<char>::empty());
        assert(digits_value(d.drop_last()) == 0);
    }
}

/// A number written in decimal parses to itself wherever it is within the bound.
pub proof fn law_decimal_parses(n: nat, max: nat)
    ensures
        unsigned_value(decimal(n), max) == (if n <= max {
            Some(n)
        } else {
            None::<nat>
        }),
{
    lemma_decimal_reads_back(n);
    assert(is_digit(decimal(n)[0]));
}

/// Appends a number in decimal.
pub fn append_decimal(s: &mut String, n: u128)
    ensures
        final(s)@ == old(s)@ + decimal(n as nat),
    decreases n,
{
    if n >= 10 {
        append_decimal(s, n / 10);
    }
    let d: u8 = (n % 10) as u8;
    s.push((48 + d) as char);
    assert(s@ == old(s)@ + decimal(n as nat));
}

/// Writes a number in decimal.
pub fn to_decimal(n: u128) -> (s: String)
    ensures
        s@ == decimal(n as nat),
{
    let mut s: String = String::new();
    append_decimal(&mut s, n);
    assert(s@ == decimal(n as nat));
    s
}

/// Reads the digits of a list from index `from` on.
fn read_digits(chars: &Vec<char>, from: usize) -> (n: Option<u128>)
    requires
        from <= chars@.len(),
    ensures
        ({
            let body = chars@.skip(from as int);
            let good = body.len() > 0 && all_digits(body) && digits_value(body) <= u128::MAX;
            &&& good ==> n == Some(digits_value(body) as u128)
            &&& !good ==> n is None
        }),
{
    let ghost body = chars@.skip(from as int);
    if from == chars.len() {
        return None;
    }
    let mut n: u128 = 0;
    let mut i: usize = from;
    while i < chars.len()
        invariant
            from <= i <= chars@.len(),
            body == chars@.skip(from as int),
            all_digits(body.take(i - from)),
            n == digits_value(body.take(i - from)),
        decreases chars@.len() - i,
    {
        let c: char = chars[i];
        proof {
            assert(body[i - from] == c);
        }
        if c < '0' || '9' < c {
            return None;
        }
        let d: u128 = (c as u32 - 48) as u128;
        let ghost seen = body.take(i - from);
        let ghost next = body.take(i - from + 1);
        proof {
            assert(next.drop_last() == seen);
            assert(all_digits(next));
        }
        match n.checked_mul(10) {
            Some(m) => match m.checked_add(d) {
                Some(v) => {
                    n = v;
                },
                None => {
                    proof {
                        if all_digits(body) {
                            lemma_digits_value_grows(body, i - from + 1);
                        }
                    }
                    return None;
                },
            },
            None => {
                proof {
                    if all_digits(body) {
                        lemma_digits_value_grows(body, i - from + 1);
                    }
                }
                return None;
            },
        }
        i += 1;
    }
    assert(body.take(i - from) == body);
    Some(n)
}

/// Parses an unsigned number of at most 128 bits.
pub fn parse_u128(s: &str) -> (n: Option<u128>)
    ensures
        n matches Some(v) ==> unsigned_value(s@, u128::MAX as nat) == Some(v as nat),
        n is None <==> unsigned_value(s@, u128::MAX as nat) is None,
{
    let chars = to_chars(s);
    assert(s@.skip(0) == s@);
    if chars.len() > 0 && chars[0] == '+' {
        read_digits(&chars, 1)
    } else {
        read_digits(&chars, 0)
    }
}

/// Parses an unsigned number of at most 64 bits.
pub fn parse_u64(s: &str) -> (n: Option<u64>)
    ensures
        n matches Some(v) ==> unsigned_value(s@, u64::MAX as nat) == Some(v as nat),
        n is None <==> unsigned_value(s@, u64::MAX as nat) is None,
{
    match parse_u128(s) {
        Some(v) => if v <= u64::MAX as u128 {
            Some(v as u64)
        } else {
            None
        },
        None => None,
    }
}

/// Parses an index.
pub fn parse_usize(s: &str) -> (n: Option<usize>)
    ensures
        n matches Some(v) ==> unsigned_value(s@, usize::MAX as nat) == Some(v as nat),
        n is None <==> unsigned_value(s@, usize::MAX as nat) is None,
{
    match parse_u128(s) {
        Some(v) => if v <= usize::MAX as u128 {
            Some(v as usize)
        } else {
            None
        },
        None => None,
    }
}

/// Parses a signed number of at most 64 bits.
pub fn parse_i64(s: &str) -> (n: Option<i64>)
    ensures
        n matches Some(v) ==> signed_value(s@) == Some(v as int),
        n is None <==> signed_value(s@) is None,
{
    let chars = to_chars(s);
    if chars.len() > 0 && chars[0] == '-' {
        match read_digits(&chars, 1) {
            Some(v) => if v <= 0x7fff_ffff_ffff_ffff {
                Some(-(v as i64))
            } else if v == 0x8000_0000_0000_0000 {
                Some(i64::MIN)
            } else {
                None
            },
            None => None,
        }
    } else {
        match parse_u64(s) {
            Some(v) => if v <= i64::MAX as u64 {
                Some(v as i64)
            } else {
                None
            },
            None => None,
        }
    }
}

/// The first run of characters that are not white space, where there is one.
pub open spec fn first_word(s: Seq<char>) -> Seq<char> {
    word_prefix(trim_start(s))
}

/// The characters before the first white space.
pub open spec fn word_prefix(s: Seq<char>) -> Seq<char>
    decreases s.len(),
{
    if s.len() > 0 && !is_white(s[0]) {
        seq![s[0]] + word_prefix(s.drop_first())
    } else {
        Seq::empty()
    }
}

/// Takes the first word of a text; the empty text where there is none.
pub fn take_word(s: &str) -> (w: String)
    ensures
        w@ == first_word(s@),
{
    let chars = to_chars(s);
    let n: usize = chars.len();
    let mut from: usize = 0;
    assert(s@.skip(0) == s@);
    while from < n && char_is_white(chars[from])
        invariant
            chars@ == s@,
            n == s@.len(),
            from <= n,
            trim_start(s@) == trim_start(s@.skip(from as int)),
        decreases n - from,
    {
        assert(s@.skip(from as int).drop_first() == s@.skip(from + 1));
        from += 1;
    }
    let ghost rest = s@.skip(from as int);
    let mut w: String = String::new();
    let mut i: usize = from;
    assert(rest.skip(0) == rest);
    assert(w@ + word_prefix(rest) == word_prefix(rest));
    while i < n && !char_is_white(chars[i])
        invariant
            chars@ == s@,
            n == s@.len(),
            from <= i <= n,
            rest == s@.skip(from as int),
            w@ + word_prefix(rest.skip(i - from)) == word_prefix(rest),
        decreases n - i,
    {
        let ghost tail = rest.skip(i - from);
        let ghost before = w@;
        w.push(chars[i]);
        proof {
            assert(tail[0] == s@[i as int]);
            assert(tail.drop_first() == rest.skip(i - from + 1));
            assert(before.push(s@[i as int]) + word_prefix(tail.drop_first()) == before + (seq![
                s@[i as int],
            ] + word_prefix(tail.drop_first())));
        }
        i += 1;
    }
    assert(w@ == word_prefix(rest));
    w
}

/// White space before and after a text falls away, and nothing else does.
pub proof fn law_trimming_keeps_the_middle(before: Seq<char>, middle: Seq<char>, after: Seq<char>)
    requires
        forall|i: int| 0 <= i < before.len() ==> is_white(#[trigger] before[i]),
        forall|i: int| 0 <= i < after.len() ==> is_white(#[trigger] after[i]),
        middle.len() > 0 ==> !is_white(middle[0]) && !is_white(middle.last()),
    ensures
        trimmed(before + middle + after) == middle,
    decreases before.len() + after.len(),
{
    let all = before + middle + after;
    if before.len() > 0 {
        let rest = before.drop_first();
        assert(all[0] == before[0]);
        assert(all.drop_first() == rest + middle + after);
        assert forall|i: int| 0 <= i < rest.len() implies is_white(#[trigger] rest[i]) by {
            assert(rest[i] == before[i + 1]);
        }
        law_trimming_keeps_the_middle(rest, middle, after);
    } else if middle.len() == 0 && after.len() > 0 {
        let rest = after.drop_first();
        assert(all[0] == after[0]);
        assert(all.drop_first() == before + middle + rest);
        assert forall|i: int| 0 <= i < rest.len() implies is_white(#[trigger] rest[i]) by {
            assert(rest[i] == after[i + 1]);
        }
        law_trimming_keeps_the_middle(before, middle, rest);
    } else if middle.len() > 0 {
        assert(all[0] == middle[0]);
        assert(trim_start(all) == all);
        lemma_trim_end(middle, after);
        assert(all == middle + after);
    } else {
        assert(all == middle);
    }
}

/// White space behind a text that ends otherwise falls away.
proof fn lemma_trim_end(middle: Seq<char>, after: Seq<char>)
    requires
        middle.len() > 0,
        !is_white(middle.last()),
        forall|i: int| 0 <= i < after.len() ==> is_white(#[trigger] after[i]),
    ensures
        trim_end(middle + after) == middle,
    decreases after.len(),
{
    let all = middle + after;
    if after.len() > 0 {
        assert(all.last() == after[after.len() - 1]);
        assert(all.drop_last() == middle + after.drop_last());
        lemma_trim_end(middle, after.drop_last());
    } else {
        assert(all == middle);
    }
}

/// The first word of a text is what stands between leading white space and the next one.
pub proof fn law_first_word(before: Seq<char>, word: Seq<char>, after: Seq<char>)
    requires
        forall|i: int| 0 <= i < before.len() ==> is_white(#[trigger] before[i]),
        forall|i: int| 0 <= i < word.len() ==> !is_white(#[trigger] word[i]),
        word.len() > 0,
        after.len() > 0 ==> is_white(after[0]),
    ensures
        first_word(before + word + after) == word,
    decreases before.len(),
{
    let all = before + word + after;
    if before.len() > 0 {
        let rest = before.drop_first();
        assert(all[0] == before[0]);
        assert(all.drop_first() == rest + word + after);
        assert forall|i: int| 0 <= i < rest.len() implies is_white(#[trigger] rest[i]) by {
            assert(rest[i] == before[i + 1]);
        }
        law_first_word(rest, word, after);
    } else {
        assert(all[0] == word[0]);
        assert(all == word + after);
        lemma_word_prefix(word, after);
    }
}

/// The characters before the first white space are the word that it ends.
proof fn lemma_word_prefix(word: Seq<char>, after: Seq<char>)
    requires
        forall|i: int| 0 <= i < word.len() ==> !is_white(#[trigger] word[i]),
        after.len() > 0 ==> is_white(after[0]),
    ensures
        word_prefix(word + after) == word,
    decreases word.len(),
{
    let all = word + after;
    if word.len() > 0 {
        let rest = word.drop_first();
        assert(all[0] == word[0]);
        assert(all.drop_first() == rest + after);
        assert forall|i: int| 0 <= i < rest.len() implies !is_white(#[trigger] rest[i]) by {
            assert(rest[i] == word[i + 1]);
        }
        lemma_word_prefix(rest, after);
        assert(seq![word[0]] + rest == word);
    } else {
        assert(all == after);
    }
}

/// A prefix that was put before a text can be taken off again, and only one that is there can.
pub proof fn law_prefix_comes_off(head: Seq<char>, rest: Seq<char>, s: Seq<char>)
    ensures
        without_prefix(head + rest, head) == Some(rest),
        without_prefix(s, head) == Some(rest) ==> s == head + rest,
        without_prefix(s, head) is None ==> s != head + rest,
{
    let all = head + rest;
    assert(all.subrange(0, head.len() as int) == head);
    assert(all.skip(head.len() as int) == rest);
    if without_prefix(s, head) == Some(rest) {
        assert(s == s.subrange(0, head.len() as int) + s.skip(head.len() as int));
    }
}

/// A text is cut at the first of the characters, and only there.
pub proof fn law_cut_at_the_first(first: Seq<char>, c: char, rest: Seq<char>)
    requires
        !first.contains(c),
    ensures
        cut(first + seq![c] + rest, c) == Some((first, rest)),
        cut(first, c) is None,
{
    let s = first + seq![c] + rest;
    lemma_next_index(s, c, 0);
    lemma_next_index(first, c, 0);
    let i = next_index(s, c, 0);
    assert(s[first.len() as int] == c);
    if i < first.len() {
        assert(first[i] == c);
    }
    assert(s.take(i) == first);
    assert(s.skip(i + 1) == rest);
}

/// Lower-casing changes the capital letters of ASCII and nothing else.
pub proof fn law_lowering(s: Seq<char>, i: int)
    requires
        0 <= i < s.len(),
    ensures
        lowered(s).len() == s.len(),
        'A' <= s[i] <= 'Z' ==> lowered(s)[i] as u32 == s[i] as u32 + 32,
        !('A' <= s[i] <= 'Z') ==> lowered(s)[i] == s[i],
{
}

/// One more digit at the end makes ten times the number and the digit; a plus before the digits
/// changes nothing; and the empty text is no number.
pub proof fn law_digits_make_numbers(s: Seq<char>, d: nat, max: nat)
    requires
        s.len() > 0,
        all_digits(s),
        d < 10,
    ensures
        unsigned_value(seq![(48 + d) as char], max) == (if d <= max {
            Some(d)
        } else {
            None::<nat>
        }),
        unsigned_value(s, max) is None ==> unsigned_value(s.push((48 + d) as char), max) is None,
        unsigned_value(s, max) matches Some(n) ==> unsigned_value(s.push((48 + d) as char), max) == (
        if n * 10 + d <= max {
            Some((n * 10 + d) as nat)
        } else {
            None::<nat>
        }),
        unsigned_value(seq!['+'] + s, max) == unsigned_value(s, max),
        unsigned_value(Seq::empty(), max) is None,
{
    let c = (48 + d) as char;
    let t = s.push(c);
    assert(c as u32 == 48 + d);
    assert(is_digit(s[0]));
    assert(t.drop_last() == s);
    assert forall|j: int| 0 <= j < t.len() implies is_digit(#[trigger] t[j]) by {
        if j < s.len() {
            assert(t[j] == s[j]);
        }
    }
    assert(t[0] == s[0]);
    let one = seq![c];
    assert(one.drop_last() == Seq::<char>::empty());
    assert(all_digits(one));
    reveal_with_fuel(digits_value, 2);
    assert((seq!['+'] + s).skip(1) == s);
}

/// What holds anything but digits behind an optional sign is no number.
pub proof fn law_letters_make_no_number(s: Seq<char>, max: nat, i: int)
    requires
        1 <= i < s.len(),
        !('0' <= s[i] <= '9'),
    ensures
        unsigned_value(s, max) is None,
        signed_value(s) is None,
{
    assert(!is_digit(s[i]));
    assert(s.skip(1)[i - 1] == s[i]);
}

/// A number that is written with its sign is read back with it.
pub proof fn law_signed_decimal_parses(n: nat)
    ensures
        n <= 0x7fff_ffff_ffff_ffff ==> signed_value(decimal(n)) == Some(n as int),
        n > 0x7fff_ffff_ffff_ffff ==> signed_value(decimal(n)) is None,
        n <= 0x8000_0000_0000_0000 ==> signed_value(seq!['-'] + decimal(n)) == Some(-(n as int)),
        n > 0x8000_0000_0000_0000 ==> signed_value(seq!['-'] + decimal(n)) is None,
{
    lemma_decimal_reads_back(n);
    assert(is_digit(decimal(n)[0]));
    assert((seq!['-'] + decimal(n)).skip(1) == decimal(n));
}

/// White space is what Unicode calls so: these characters and no others.
pub proof fn law_white_space(c: char)
    ensures
        is_white(c) <==> c == '\t' || c == '\n' || c == '\u{b}' || c == '\u{c}' || c == '\r' || c == ' '
            || c == '\u{85}' || c == '\u{a0}' || c == '\u{1680}' || c == '\u{2000}' || c == '\u{2001}'
            || c == '\u{2002}' || c == '\u{2003}' || c == '\u{2004}' || c == '\u{2005}' || c
            == '\u{2006}' || c == '\u{2007}' || c == '\u{2008}' || c == '\u{2009}' || c == '\u{200a}'
            || c == '\u{2028}' || c == '\u{2029}' || c == '\u{202f}' || c == '\u{205f}' || c
            == '\u{3000}',
{
}

} // verus!
