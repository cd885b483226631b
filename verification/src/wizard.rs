//! The questions that lead to a snipe, and their answers.

use vstd::prelude::*;

use crate::rpc_url::copy_strings;
use crate::snipe::{
    amount_value, gwei_text, gwei_value, law_gwei_text_parses, list_value, parse_gwei, prefixed,
    text_value, three_digits, OptionsValue, SnipeOptions,
};
use crate::text::{
    contents, cut, decimal, is_digit, law_cut_at_the_first, law_decimal_parses, lemma_decimal_reads_back,
    lemma_piece_in_front, lemma_single_piece, lowered, parse_usize, pieces, same, split, split_once,
    to_ascii_lowercase, trim, trim_end, trim_start, trimmed, unsigned_value,
};
use crate::uint::U256;

verus! {

/// The question that a wizard waits to have answered.
#[derive(Clone, Copy, Debug, PartialEq, Eq, Structural)]
pub enum Step {
    /// Which collection?
    Collection,
    /// Which chain?
    Chain,
    /// How many tokens?
    Quantity,
    /// Which wallets?
    Wallets,
    /// At what gas price?
    Gas,
    /// How early?
    Early,
    /// Really?
    Confirm,
}

/// What has been answered so far.
#[derive(Debug)]
pub struct Wizard {
    /// The question that is open.
    pub step: Step,
    /// The collection.
    pub collection: String,
    /// The chain.
    pub chain: Option<String>,
    /// How many tokens each wallet mints.
    pub quantity: u64,
    /// Which wallets; an empty list stands for all of them.
    pub wallets: Option<Vec<usize>>,
    /// The most to pay for a unit of gas.
    pub max_fee_per_gas: Option<U256>,
    /// The part of it that goes to the block's producer.
    pub max_priority_fee_per_gas: Option<U256>,
    /// How early to fire, in milliseconds.
    pub early_fire_ms: u64,
}

/// The answers as values.
pub struct Answers {
    /// The question that is open.
    pub step: Step,
    /// The collection.
    pub collection: Seq<char>,
    /// The chain.
    pub chain: Option<Seq<char>>,
    /// How many tokens each wallet mints.
    pub quantity: u64,
    /// Which wallets.
    pub wallets: Option<Seq<usize>>,
    /// The most to pay for a unit of gas.
    pub max_fee: Option<nat>,
    /// The part of it that goes to the block's producer.
    pub priority_fee: Option<nat>,
    /// How early to fire, in milliseconds.
    pub early_fire_ms: u64,
}

impl View for Wizard {
    type V = Answers;

    open spec fn view(&self) -> Answers {
        Answers {
            step: self.step,
            collection: self.collection@,
            chain: text_value(self.chain),
            quantity: self.quantity,
            wallets: list_value(self.wallets),
            max_fee: amount_value(self.max_fee_per_gas),
            priority_fee: amount_value(self.max_priority_fee_per_gas),
            early_fire_ms: self.early_fire_ms,
        }
    }
}

/// Nothing has been answered yet.
pub open spec fn no_answers() -> Answers {
    Answers {
        step: Step::Collection,
        collection: ""@,
        chain: None,
        quantity: 1,
        wallets: None,
        max_fee: None,
        priority_fee: None,
        early_fire_ms: 0,
    }
}

impl Wizard {
    /// Begins with the first question.
    pub fn new() -> (wizard: Wizard)
        ensures
            wizard@ == no_answers(),
    {
        Wizard {
            step: Step::Collection,
            collection: "".to_owned(),
            chain: None,
            quantity: 1,
            wallets: None,
            max_fee_per_gas: None,
            max_priority_fee_per_gas: None,
            early_fire_ms: 0,
        }
    }
}

impl Clone for Wizard {
    fn clone(&self) -> (copy: Self)
        ensures
            copy@ == self@,
    {
        let chain = match &self.chain {
            Some(chain) => Some(chain.clone()),
            None => None,
        };
        let wallets = match &self.wallets {
            Some(list) => Some(copy_indices(list)),
            None => None,
        };
        Wizard {
            step: self.step,
            collection: self.collection.clone(),
            chain,
            quantity: self.quantity,
            wallets,
            max_fee_per_gas: self.max_fee_per_gas,
            max_priority_fee_per_gas: self.max_priority_fee_per_gas,
            early_fire_ms: self.early_fire_ms,
        }
    }
}

/// The indices that a list of entries names, each once, in the order in which they first come, or
/// the first entry that names none. Blank entries do not count.
pub open spec fn named_indices(entries: Seq<Seq<char>>) -> Result<Seq<usize>, Seq<char>>
    decreases entries.len(),
{
    if entries.len() == 0 {
        Ok(Seq::empty())
    } else {
        let entry = trimmed(entries.last());
        match named_indices(entries.drop_last()) {
            Err(bad) => Err(bad),
            Ok(before) => if entry.len() == 0 {
                Ok(before)
            } else {
                match unsigned_value(entry, usize::MAX as nat) {
                    Some(index) => if before.contains(index as usize) {
                        Ok(before)
                    } else {
                        Ok(before.push(index as usize))
                    },
                    None => Err(entry),
                }
            },
        }
    }
}

/// What the answer to "which wallets?" comes to: the indices, with the empty list for `all`, or what
/// is replied instead.
pub open spec fn wallet_selection(text: Seq<char>) -> Result<Seq<usize>, Seq<char>> {
    let answer = lowered(trimmed(text));
    if answer == "all"@ {
        Ok(Seq::empty())
    } else {
        match named_indices(pieces(answer, ',')) {
            Err(bad) => Err(
                "Cannot parse `"@ + bad + "` — send comma-separated indices or `all`."@,
            ),
            Ok(indices) => if indices.len() == 0 {
                Err("Send at least one wallet index or `all`."@)
            } else {
                Ok(indices)
            },
        }
    }
}

/// An entry that names no index is the one that the whole list complains of, if it is the first.
proof fn lemma_first_bad_entry(entries: Seq<Seq<char>>, n: int)
    requires
        0 <= n <= entries.len(),
        named_indices(entries.take(n)) is Err,
    ensures
        named_indices(entries) == named_indices(entries.take(n)),
    decreases entries.len(),
{
    if n == entries.len() {
        assert(entries.take(n) == entries);
    } else {
        assert(entries.drop_last().take(n) == entries.take(n));
        lemma_first_bad_entry(entries.drop_last(), n);
    }
}

/// Tells whether an index stands in a list.
pub(crate) fn has_index(list: &Vec<usize>, index: usize) -> (found: bool)
    ensures
        found == list@.contains(index),
{
    let mut i: usize = 0;
    while i < list.len()
        invariant
            i <= list@.len(),
            forall|j: int| 0 <= j < i ==> list@[j] != index,
        decreases list@.len() - i,
    {
        if list[i] == index {
            assert(list@[i as int] == index);
            return true;
        }
        i += 1;
    }
    false
}

/// Reads the answer to "which wallets?".
pub fn parse_wallet_selection(text: &str) -> (selection: Result<Vec<usize>, String>)
    ensures
        match wallet_selection(text@) {
            Ok(indices) => selection is Ok && selection->Ok_0@ == indices,
            Err(reply) => selection is Err && selection->Err_0@ == reply,
        },
{
    let answer = to_ascii_lowercase(trim(text));
    if same(answer.as_str(), "all") {
        return Ok(Vec::new());
    }
    let entries = split(answer.as_str(), ',');
    let ghost named = contents(entries@);
    let mut indices: Vec<usize> = Vec::new();
    let mut i: usize = 0;
    assert(named.take(0) == Seq::<Seq<char>>::empty());
    while i < entries.len()
        invariant
            i <= entries@.len(),
            named == contents(entries@),
            named == pieces(answer@, ','),
            answer@ == lowered(trimmed(text@)),
            answer@ != "all"@,
            named_indices(named.take(i as int)) == Ok::<Seq<usize>, Seq<char>>(indices@),
        decreases entries@.len() - i,
    {
        let ghost next = named.take(i + 1);
        assert(next.drop_last() == named.take(i as int));
        assert(next.last() == entries@[i as int]@);
        let entry = trim(entries[i].as_str());
        if !entry.is_empty() {
            match parse_usize(entry) {
                Some(index) => {
                    if !has_index(&indices, index) {
                        indices.push(index);
                    }
                },
                None => {
                    proof {
                        lemma_first_bad_entry(named, i + 1);
                    }
                    let mut reply = prefixed("Cannot parse `", entry);
                    reply.append("` — send comma-separated indices or `all`.");
                    return Err(reply);
                },
            }
        }
        i += 1;
    }
    assert(named.take(i as int) == named);
    if indices.len() == 0 {
        return Err("Send at least one wallet index or `all`.".to_owned());
    }
    Ok(indices)
}

/// No wallet is selected twice.
pub proof fn law_selection_has_no_duplicates(text: Seq<char>)
    ensures
        wallet_selection(text) matches Ok(indices) ==> indices.no_duplicates(),
{
    lemma_named_once(pieces(lowered(trimmed(text)), ','));
}

/// No index is named twice.
proof fn lemma_named_once(entries: Seq<Seq<char>>)
    ensures
        named_indices(entries) matches Ok(indices) ==> indices.no_duplicates(),
    decreases entries.len(),
{
    if entries.len() > 0 {
        lemma_named_once(entries.drop_last());
    }
}

/// A selection as a text: the indices in decimal, with commas between them.
pub open spec fn selection_text(indices: Seq<usize>) -> Seq<char>
    decreases indices.len(),
{
    if indices.len() == 0 {
        Seq::empty()
    } else if indices.len() == 1 {
        decimal(indices[0] as nat)
    } else {
        decimal(indices[0] as nat) + seq![','] + selection_text(indices.drop_first())
    }
}

/// The indices in decimal, one by one.
pub open spec fn index_texts(indices: Seq<usize>) -> Seq<Seq<char>> {
    Seq::new(indices.len(), |i: int| decimal(indices[i] as nat))
}

/// A selection's text is made of digits and commas, begins and ends with a digit, and has the
/// indices for its pieces.
proof fn lemma_selection_text(indices: Seq<usize>)
    requires
        indices.len() > 0,
    ensures
        selection_text(indices).len() > 0,
        is_digit(selection_text(indices)[0]),
        is_digit(selection_text(indices).last()),
        forall|i: int|
            0 <= i < selection_text(indices).len() ==> is_digit(
                #[trigger] selection_text(indices)[i],
            ) || selection_text(indices)[i] == ',',
        pieces(selection_text(indices), ',') == index_texts(indices),
    decreases indices.len(),
{
    let s = selection_text(indices);
    let first = decimal(indices[0] as nat);
    lemma_decimal_reads_back(indices[0] as nat);
    assert forall|i: int| 0 <= i < first.len() implies #[trigger] first[i] != ',' by {
        assert(is_digit(first[i]));
    }
    assert(is_digit(first[0]));
    assert(is_digit(first.last()));
    if indices.len() == 1 {
        lemma_single_piece(first, ',');
        assert(index_texts(indices) == seq![first]);
        assert forall|i: int| 0 <= i < s.len() implies is_digit(#[trigger] s[i]) || s[i] == ',' by {
            assert(is_digit(first[i]));
        }
    } else {
        let tail = indices.drop_first();
        let rest = selection_text(tail);
        lemma_selection_text(tail);
        lemma_piece_in_front(first, rest, ',');
        assert(index_texts(indices) == seq![first] + index_texts(tail));
        assert(s.last() == rest.last());
        assert forall|i: int| 0 <= i < s.len() implies is_digit(#[trigger] s[i]) || s[i] == ',' by {
            if i < first.len() {
                assert(is_digit(first[i]));
            } else if i > first.len() {
                assert(s[i] == rest[i - first.len() - 1]);
            }
        }
    }
}

/// Distinct indices in decimal name themselves.
proof fn lemma_texts_name_indices(indices: Seq<usize>)
    requires
        indices.no_duplicates(),
    ensures
        named_indices(index_texts(indices)) == Ok::<Seq<usize>, Seq<char>>(indices),
    decreases indices.len(),
{
    let texts = index_texts(indices);
    if indices.len() > 0 {
        let init = indices.drop_last();
        let last = indices.last();
        lemma_texts_name_indices(init);
        assert(texts.drop_last() == index_texts(init));
        let entry = decimal(last as nat);
        lemma_decimal_reads_back(last as nat);
        law_decimal_parses(last as nat, usize::MAX as nat);
        assert(is_digit(entry[0]));
        assert(is_digit(entry.last()));
        assert(trim_start(entry) == entry);
        assert(trim_end(entry) == entry);
        assert(!init.contains(last));
        assert(init.push(last) == indices);
    } else {
        assert(indices == Seq::<usize>::empty());
    }
}

/// A selection that was read, written out and read again, is the same selection.
pub proof fn law_selection_reads_back(text: Seq<char>)
    requires
        wallet_selection(text) is Ok,
        wallet_selection(text)->Ok_0.len() > 0,
    ensures
        wallet_selection(selection_text(wallet_selection(text)->Ok_0)) == wallet_selection(text),
{
    let indices = wallet_selection(text)->Ok_0;
    let s = selection_text(indices);
    law_selection_has_no_duplicates(text);
    lemma_selection_text(indices);
    lemma_texts_name_indices(indices);
    assert(trim_start(s) == s);
    assert(trim_end(s) == s);
    assert(lowered(s) == s);
    reveal_strlit("all");
    assert("all"@[0] == 'a');
}

/// The two sides of a gas price.
pub open spec fn gas_sides(answer: Seq<char>) -> (Seq<char>, Seq<char>) {
    match cut(answer, '/') {
        Some((max, priority)) => (trimmed(max), trimmed(priority)),
        None => (answer, Seq::empty()),
    }
}

/// What one side of a gas price comes to: nothing where it is blank.
pub open spec fn fee_side(side: Seq<char>) -> Result<Option<nat>, Seq<char>> {
    if side.len() == 0 {
        Ok(None)
    } else {
        match gwei_value(side) {
            Ok(wei) => Ok(Some(wei)),
            Err(told) => Err(told),
        }
    }
}

/// What the answer to "at what gas price?" comes to: the maximum and the priority fee, each where it
/// was given, or what is replied instead. `auto` gives neither.
pub open spec fn gas_answer(text: Seq<char>) -> Result<(Option<nat>, Option<nat>), Seq<char>> {
    let answer = lowered(trimmed(text));
    let (max, priority) = gas_sides(answer);
    if answer == "auto"@ || answer.len() == 0 {
        Ok((None, None))
    } else if fee_side(max) is Err {
        Err("Invalid max fee `"@ + max + "` — e.g. `0.05/0.01` or `auto`."@)
    } else if fee_side(priority) is Err {
        Err("Invalid priority fee `"@ + priority + "` — e.g. `0.05/0.01` or `auto`."@)
    } else if fee_side(max)->Ok_0 is None && fee_side(priority)->Ok_0 is None {
        Err("Send `max/priority` in gwei or `auto`."@)
    } else {
        Ok((fee_side(max)->Ok_0, fee_side(priority)->Ok_0))
    }
}

/// Reads one side of a gas price.
fn parse_fee_side(side: &str) -> (fee: Result<Option<U256>, ()>)
    ensures
        match fee_side(side@) {
            Ok(wei) => fee is Ok && amount_value(fee->Ok_0) == wei,
            Err(_) => fee is Err,
        },
{
    if side.is_empty() {
        return Ok(None);
    }
    match parse_gwei(side) {
        Ok(wei) => Ok(Some(wei)),
        Err(_) => Err(()),
    }
}

/// Reads the answer to "at what gas price?".
pub fn parse_gas(text: &str) -> (fees: Result<(Option<U256>, Option<U256>), String>)
    ensures
        match gas_answer(text@) {
            Ok((max, priority)) => {
                &&& fees matches Ok((max_fee, priority_fee))
                &&& amount_value(max_fee) == max
                &&& amount_value(priority_fee) == priority
            },
            Err(reply) => fees is Err && fees->Err_0@ == reply,
        },
{
    let answer = to_ascii_lowercase(trim(text));
    if same(answer.as_str(), "auto") || answer.as_str().is_empty() {
        return Ok((None, None));
    }
    let (max, priority) = match split_once(answer.as_str(), '/') {
        Some((max, priority)) => (trim(max), trim(priority)),
        None => (answer.as_str(), ""),
    };
    proof {
        reveal_strlit("");
        assert(""@ == Seq::<char>::empty());
        assert((max@, priority@) == gas_sides(answer@));
    }
    let max_fee = match parse_fee_side(max) {
        Ok(fee) => fee,
        Err(_) => {
            let mut reply = prefixed("Invalid max fee `", max);
            reply.append("` — e.g. `0.05/0.01` or `auto`.");
            return Err(reply);
        },
    };
    let priority_fee = match parse_fee_side(priority) {
        Ok(fee) => fee,
        Err(_) => {
            let mut reply = prefixed("Invalid priority fee `", priority);
            reply.append("` — e.g. `0.05/0.01` or `auto`.");
            return Err(reply);
        },
    };
    if max_fee.is_none() && priority_fee.is_none() {
        return Err("Send `max/priority` in gwei or `auto`.".to_owned());
    }
    Ok((max_fee, priority_fee))
}

/// The gas that a snipe's transaction may use.
pub const SNIPE_GAS_LIMIT: u64 = 250_000;

/// The snipe that the answers ask for.
pub open spec fn snipe_of(
    answers: Answers,
    chain: Seq<char>,
    wallets_file: Seq<char>,
    rpc_urls: Seq<Seq<char>>,
) -> OptionsValue {
    OptionsValue {
        collection: answers.collection,
        quantity: Some(answers.quantity),
        key_count: 0,
        wallets_file: Some(wallets_file),
        wallet_indices: answers.wallets,
        rpc_urls,
        chain: Some(chain),
        max_fee: answers.max_fee,
        priority_fee: answers.priority_fee,
        gas_limit: SNIPE_GAS_LIMIT,
        early_fire_ms: answers.early_fire_ms,
        fire_now: false,
    }
}

/// Copies a list of indices.
fn copy_indices(list: &Vec<usize>) -> (copy: Vec<usize>)
    ensures
        copy@ == list@,
{
    let mut copy: Vec<usize> = Vec::new();
    copy.extend_from_slice(list.as_slice());
    assert(copy@ == list@);
    copy
}

/// Makes the snipe that the answers ask for, on the given chain.
pub fn snipe_options(
    wizard: &Wizard,
    chain: &str,
    wallets_file: &str,
    rpc_urls: &Vec<String>,
) -> (options: SnipeOptions)
    ensures
        options@ == snipe_of(wizard@, chain@, wallets_file@, contents(rpc_urls@)),
{
    let wallet_indices = match &wizard.wallets {
        Some(list) => Some(copy_indices(list)),
        None => None,
    };
    SnipeOptions {
        collection: wizard.collection.clone(),
        quantity: Some(wizard.quantity),
        key_count: 0,
        wallets_file: Some(wallets_file.to_owned()),
        wallet_indices,
        rpc_urls: copy_strings(rpc_urls),
        chain: Some(chain.to_owned()),
        max_fee_per_gas: wizard.max_fee_per_gas,
        max_priority_fee_per_gas: wizard.max_priority_fee_per_gas,
        gas_limit: SNIPE_GAS_LIMIT,
        early_fire_ms: wizard.early_fire_ms,
        fire_now: false,
    }
}

/// A wizard begins with the first question, one token for each wallet, and nothing else decided.
pub proof fn law_wizard_begins_empty()
    ensures
        no_answers().step == Step::Collection,
        no_answers().collection.len() == 0,
        no_answers().chain is None,
        no_answers().quantity == 1,
        no_answers().wallets is None,
        no_answers().max_fee is None,
        no_answers().priority_fee is None,
        no_answers().early_fire_ms == 0,
{
    reveal_strlit("");
}

/// Any selection can be typed: different indices, written with commas between them, select exactly
/// themselves in that order.
pub proof fn law_typed_indices_are_selected(indices: Seq<usize>)
    requires
        indices.len() > 0,
        indices.no_duplicates(),
    ensures
        wallet_selection(selection_text(indices)) == Ok::<Seq<usize>, Seq<char>>(indices),
{
    let s = selection_text(indices);
    lemma_selection_text(indices);
    lemma_texts_name_indices(indices);
    assert(trim_start(s) == s);
    assert(trim_end(s) == s);
    assert(lowered(s) == s);
    reveal_strlit("all");
    assert("all"@[0] == 'a');
}

/// White space around an answer changes nothing, and neither does the case of `all`, which selects
/// every wallet.
pub proof fn law_all_selects_every_wallet(text: Seq<char>)
    ensures
        lowered(trimmed(text)) == "all"@ ==> wallet_selection(text) == Ok::<Seq<usize>, Seq<char>>(
            Seq::empty(),
        ),
        wallet_selection(text) matches Ok(indices) && indices.len() == 0 ==> lowered(trimmed(text))
            == "all"@,
{
}

/// What is listed twice is selected once, what is blank selects nothing, and what is no index spoils
/// the whole list.
pub proof fn law_entries_name_indices(entries: Seq<Seq<char>>, next: Seq<char>)
    ensures
        named_indices(Seq::empty()) == Ok::<Seq<usize>, Seq<char>>(Seq::empty()),
        named_indices(entries) matches Err(bad) ==> named_indices(entries.push(next)) == Err::<
            Seq<usize>,
            Seq<char>,
        >(bad),
        named_indices(entries) matches Ok(indices) ==> {
            &&& trimmed(next).len() == 0 ==> named_indices(entries.push(next)) == Ok::<
                Seq<usize>,
                Seq<char>,
            >(indices)
            &&& forall|n: usize|
                trimmed(next) == #[trigger] decimal(n as nat) ==> named_indices(entries.push(next))
                    == Ok::<Seq<usize>, Seq<char>>(
                    if indices.contains(n) {
                        indices
                    } else {
                        indices.push(n)
                    },
                )
            &&& trimmed(next).len() > 0 && unsigned_value(trimmed(next), usize::MAX as nat) is None
                ==> named_indices(entries.push(next)) == Err::<Seq<usize>, Seq<char>>(trimmed(next))
        },
{
    let all = entries.push(next);
    assert(all.drop_last() == entries);
    assert(all.last() == next);
    if let Ok(indices) = named_indices(entries) {
        assert forall|n: usize| trimmed(next) == #[trigger] decimal(n as nat) implies named_indices(
            all,
        ) == Ok::<Seq<usize>, Seq<char>>(
            if indices.contains(n) {
                indices
            } else {
                indices.push(n)
            },
        ) by {
            lemma_decimal_reads_back(n as nat);
            law_decimal_parses(n as nat, usize::MAX as nat);
        }
    }
}

/// Any two fees can be typed: written in gwei with a slash between them, the first is the most to
/// pay and the second goes to the block's producer. One fee alone is the most to pay.
pub proof fn law_typed_fees_are_taken(max_fee: nat, priority_fee: nat)
    requires
        max_fee <= u128::MAX,
        priority_fee <= u128::MAX,
    ensures
        gas_answer(gwei_text(max_fee) + seq!['/'] + gwei_text(priority_fee)) == Ok::<
            (Option<nat>, Option<nat>),
            Seq<char>,
        >(
            (
                Some(max_fee / 1_000_000 * 1_000_000),
                Some(priority_fee / 1_000_000 * 1_000_000),
            ),
        ),
        gas_answer(gwei_text(max_fee)) == Ok::<(Option<nat>, Option<nat>), Seq<char>>(
            (Some(max_fee / 1_000_000 * 1_000_000), None),
        ),
        gas_answer(seq!['/'] + gwei_text(priority_fee)) == Ok::<
            (Option<nat>, Option<nat>),
            Seq<char>,
        >((None, Some(priority_fee / 1_000_000 * 1_000_000))),
        gas_answer(gwei_text(max_fee) + seq!['/']) == Ok::<(Option<nat>, Option<nat>), Seq<char>>(
            (Some(max_fee / 1_000_000 * 1_000_000), None),
        ),
{
    let a = gwei_text(max_fee);
    let b = gwei_text(priority_fee);
    let nothing = Seq::<char>::empty();
    lemma_gwei_text_is_plain(max_fee);
    lemma_gwei_text_is_plain(priority_fee);
    law_gwei_text_parses(max_fee);
    law_gwei_text_parses(priority_fee);
    reveal_strlit("auto");
    assert("auto"@[0] == 'a');
    let both = a + seq!['/'] + b;
    assert(both[0] == a[0]);
    assert(both.last() == b.last());
    assert(lowered(both) == both);
    law_cut_at_the_first(a, '/', b);
    let second = seq!['/'] + b;
    assert(second[0] == '/');
    assert(second.last() == b.last());
    assert(lowered(second) == second);
    law_cut_at_the_first(nothing, '/', b);
    assert(nothing + seq!['/'] + b == second);
    let first = a + seq!['/'];
    assert(first[0] == a[0]);
    assert(first.last() == '/');
    assert(lowered(first) == first);
    law_cut_at_the_first(a, '/', nothing);
    assert(a + seq!['/'] + nothing == first);
    assert(lowered(a) == a);
    assert(trimmed(nothing) == nothing);
    assert(trimmed(a) == a);
    assert(trimmed(b) == b);
    assert(trimmed(both) == both);
    assert(trimmed(first) == first);
    assert(trimmed(second) == second);
}

/// An amount in gwei is digits and a point, and begins and ends with a digit.
proof fn lemma_gwei_text_is_plain(wei: nat)
    ensures
        gwei_text(wei).len() > 0,
        is_digit(gwei_text(wei)[0]),
        is_digit(gwei_text(wei).last()),
        forall|i: int|
            0 <= i < gwei_text(wei).len() ==> is_digit(#[trigger] gwei_text(wei)[i])
                || gwei_text(wei)[i] == '.',
        !gwei_text(wei).contains('/'),
{
    let d = decimal(wei / 1_000_000_000);
    let millis = (wei % 1_000_000_000) / 1_000_000;
    let t = three_digits(millis);
    let s = gwei_text(wei);
    lemma_decimal_reads_back(wei / 1_000_000_000);
    lemma_decimal_reads_back(millis);
    let m = decimal(millis);
    assert(t.last() == m.last());
    assert(is_digit(m.last()));
    assert(is_digit(d[0]));
    assert(s.last() == t.last());
    assert forall|i: int| 0 <= i < s.len() implies is_digit(#[trigger] s[i]) || s[i] == '.' by {
        if i < d.len() {
            assert(is_digit(d[i]));
        } else if i > d.len() {
            let k = i - d.len() - 1;
            assert(s[i] == t[k]);
            let zeros = t.len() - m.len();
            if k >= zeros {
                assert(t[k] == m[k - zeros]);
                assert(is_digit(m[k - zeros]));
            } else {
                assert(t[k] == '0');
            }
        }
    }
    if s.contains('/') {
        let i = choose|i: int| 0 <= i < s.len() && s[i] == '/';
        assert(is_digit(s[i]) || s[i] == '.');
    }
}

/// `auto`, in any case, and a blank answer leave both fees to the chain; nothing else does.
pub proof fn law_auto_leaves_fees_open(text: Seq<char>)
    ensures
        lowered(trimmed(text)) == "auto"@ || trimmed(text).len() == 0 ==> gas_answer(text) == Ok::<
            (Option<nat>, Option<nat>),
            Seq<char>,
        >((None, None)),
        gas_answer(text) matches Ok((max_fee, priority_fee)) && max_fee is None
            && priority_fee is None ==> lowered(trimmed(text)) == "auto"@ || trimmed(text).len()
            == 0,
{
}

/// The snipe of the answers is what was answered: each field is the answer to its question, the
/// wallets come from the file, and it waits for the stage.
pub proof fn law_snipe_is_what_was_answered(
    answers: Answers,
    chain: Seq<char>,
    wallets_file: Seq<char>,
    rpc_urls: Seq<Seq<char>>,
)
    ensures
        ({
            let options = snipe_of(answers, chain, wallets_file, rpc_urls);
            &&& options.collection == answers.collection
            &&& options.quantity == Some(answers.quantity)
            &&& options.chain == Some(chain)
            &&& options.wallet_indices == answers.wallets
            &&& options.max_fee == answers.max_fee
            &&& options.priority_fee == answers.priority_fee
            &&& options.early_fire_ms == answers.early_fire_ms
            &&& options.wallets_file == Some(wallets_file)
            &&& options.rpc_urls == rpc_urls
            &&& options.key_count == 0
            &&& options.gas_limit == 250_000
            &&& !options.fire_now
        }),
{
}

/// What was typed on either side of the slash is what counts, each side as an amount in gwei; a
/// blank side is left to the chain, and a side that is no amount is quoted and asked for again.
pub proof fn law_fee_sides(text: Seq<char>, left: Seq<char>, right: Seq<char>)
    requires
        lowered(trimmed(text)) == left + seq!['/'] + right,
        !left.contains('/'),
    ensures
        ({
            let max = trimmed(left);
            let priority = trimmed(right);
            &&& max.len() > 0 && gwei_value(max) is Err ==> gas_answer(text) == Err::<
                (Option<nat>, Option<nat>),
                Seq<char>,
            >("Invalid max fee `"@ + max + "` — e.g. `0.05/0.01` or `auto`."@)
            &&& (max.len() == 0 || gwei_value(max) is Ok) && priority.len() > 0 && gwei_value(
                priority,
            ) is Err ==> gas_answer(text) == Err::<(Option<nat>, Option<nat>), Seq<char>>(
                "Invalid priority fee `"@ + priority + "` — e.g. `0.05/0.01` or `auto`."@,
            )
            &&& max.len() == 0 && priority.len() == 0 ==> gas_answer(text) == Err::<
                (Option<nat>, Option<nat>),
                Seq<char>,
            >("Send `max/priority` in gwei or `auto`."@)
            &&& max.len() > 0 && priority.len() > 0 ==> (gwei_value(max) matches Ok(a) ==> (
            gwei_value(priority) matches Ok(b) ==> gas_answer(text) == Ok::<
                (Option<nat>, Option<nat>),
                Seq<char>,
            >((Some(a), Some(b)))))
        }),
{
    let answer = lowered(trimmed(text));
    law_cut_at_the_first(left, '/', right);
    reveal_strlit("auto");
    assert(answer[left.len() as int] == '/');
    if answer == "auto"@ {
        assert("auto"@[left.len() as int] == '/');
    }
}

/// What an unusable selection is answered: the first entry that is no index is quoted, and a list
/// without any index is asked for again.
pub proof fn law_bad_selections_are_quoted(text: Seq<char>)
    requires
        lowered(trimmed(text)) != "all"@,
    ensures
        named_indices(pieces(lowered(trimmed(text)), ',')) matches Err(bad) ==> wallet_selection(text)
            == Err::<Seq<usize>, Seq<char>>(
            "Cannot parse `"@ + bad + "` — send comma-separated indices or `all`."@,
        ),
        named_indices(pieces(lowered(trimmed(text)), ',')) matches Ok(indices) ==> (indices.len() == 0
            ==> wallet_selection(text) == Err::<Seq<usize>, Seq<char>>(
            "Send at least one wallet index or `all`."@,
        )) && (indices.len() > 0 ==> wallet_selection(text) == Ok::<Seq<usize>, Seq<char>>(indices)),
{
}

} // verus!
