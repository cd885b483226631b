//! What came of a dispatch, and how it is told.

use vstd::prelude::*;

use crate::blast::{
    accepted, distinct_reasons, is_accepted, law_any_hash_is_accepted, rejection_reasons, texts,
    BlastResult,
};
use crate::chain::TransactionReceipt;
use crate::chains::{explorer_link, explorer_url};
use crate::hexdata::{checksum_text, prefixed_hex, Address};
use crate::snipe::prefixed;
use crate::text::{
    contains, contents, decimal, has_part, lowered, occurs_at, to_ascii_lowercase, to_decimal,
};

verus! {

/// How loud a line of a report is.
#[derive(Clone, Copy, Debug, PartialEq, Eq, Structural)]
pub enum Level {
    /// For the record.
    Info,
    /// Something worked.
    Success,
    /// Something is worth a look.
    Warning,
    /// Something failed.
    Error,
}

/// A line of a report.
#[derive(Debug)]
pub struct Line {
    /// How loud it is.
    pub level: Level,
    /// What it says.
    pub text: String,
}

/// Is `line` that text at that level?
pub open spec fn says(line: Line, level: Level, text: Seq<char>) -> bool {
    line.level == level && line.text@ == text
}

/// What the endpoints made of one wallet's transaction.
#[derive(Debug)]
pub struct WalletResults {
    /// The index of the wallet.
    pub index: usize,
    /// Its address.
    pub address: Address,
    /// What each endpoint answered.
    pub results: Vec<BlastResult>,
}

/// The wallets whose transaction is out.
pub open spec fn taken(fired: Seq<WalletResults>) -> Seq<WalletResults> {
    fired.filter(|wallet: WalletResults| accepted(wallet.results@))
}

/// The wallets whose transaction was refused.
pub open spec fn refused(fired: Seq<WalletResults>) -> Seq<WalletResults> {
    fired.filter(|wallet: WalletResults| !accepted(wallet.results@))
}

/// Parts the wallets whose transaction is out from the others, each in the order that they had.
pub fn collect_results(fired: Vec<WalletResults>) -> (parted: (Vec<WalletResults>, Vec<WalletResults>))
    ensures
        parted.0@ == taken(fired@),
        parted.1@ == refused(fired@),
{
    let ghost all = fired@;
    let mut good: Vec<WalletResults> = Vec::new();
    let mut bad: Vec<WalletResults> = Vec::new();
    proof {
        reveal(Seq::filter);
        assert(all.take(0) == Seq::<WalletResults>::empty());
    }
    for wallet in it: fired.into_iter()
        invariant
            it.seq() == all,
            good@ == taken(all.take(it.index() as int)),
            bad@ == refused(all.take(it.index() as int)),
    {
        proof {
            reveal(Seq::filter);
            let next = all.take(it.index() + 1);
            assert(next.drop_last() == all.take(it.index() as int));
            assert(next.last() == wallet);
        }
        if is_accepted(wallet.results.as_slice()) {
            good.push(wallet);
        } else {
            bad.push(wallet);
        }
    }
    assert(all.take(all.len() as int) == all);
    (good, bad)
}

/// Every wallet is either taken or refused, and none is both or lost.
pub proof fn law_every_wallet_is_reported(fired: Seq<WalletResults>)
    ensures
        taken(fired).len() + refused(fired).len() == fired.len(),
        forall|wallet: WalletResults| #[trigger]
            taken(fired).contains(wallet) ==> accepted(wallet.results@) && fired.contains(wallet),
        forall|wallet: WalletResults| #[trigger]
            refused(fired).contains(wallet) ==> !accepted(wallet.results@) && fired.contains(wallet),
        forall|wallet: WalletResults| #[trigger]
            fired.contains(wallet) ==> taken(fired).contains(wallet) || refused(fired).contains(
                wallet,
            ),
    decreases fired.len(),
{
    reveal(Seq::filter);
    if fired.len() > 0 {
        let init = fired.drop_last();
        let last = fired.last();
        law_every_wallet_is_reported(init);
        assert(fired.contains(last));
        assert forall|wallet: WalletResults| #[trigger] taken(fired).contains(wallet) implies accepted(
            wallet.results@,
        ) && fired.contains(wallet) by {
            if wallet != last {
                let k = choose|k: int| 0 <= k < taken(fired).len() && taken(fired)[k] == wallet;
                assert(taken(init)[k] == wallet);
                assert(taken(init).contains(wallet));
                let i = choose|i: int| 0 <= i < init.len() && init[i] == wallet;
                assert(fired[i] == wallet);
            } else if !accepted(last.results@) {
                let k = choose|k: int| 0 <= k < taken(fired).len() && taken(fired)[k] == wallet;
                assert(taken(init)[k] == wallet);
                assert(taken(init).contains(wallet));
            }
        }
        assert forall|wallet: WalletResults| #[trigger] fired.contains(wallet) implies taken(
            fired,
        ).contains(wallet) || refused(fired).contains(wallet) by {
            let i = choose|i: int| 0 <= i < fired.len() && fired[i] == wallet;
            if i < init.len() {
                assert(init[i] == wallet);
                assert(init.contains(wallet));
                if taken(init).contains(wallet) {
                    let k = choose|k: int| 0 <= k < taken(init).len() && taken(init)[k] == wallet;
                    assert(taken(fired)[k] == wallet);
                } else {
                    let k = choose|k: int|
                        0 <= k < refused(init).len() && refused(init)[k] == wallet;
                    assert(refused(fired)[k] == wallet);
                }
            } else if accepted(last.results@) {
                assert(taken(fired)[taken(init).len() as int] == wallet);
            } else {
                assert(refused(fired)[refused(init).len() as int] == wallet);
            }
        }
        assert forall|wallet: WalletResults| #[trigger]
            refused(fired).contains(wallet) implies !accepted(wallet.results@) && fired.contains(
            wallet,
        ) by {
            if wallet != last {
                let k = choose|k: int| 0 <= k < refused(fired).len() && refused(fired)[k] == wallet;
                assert(refused(init)[k] == wallet);
                assert(refused(init).contains(wallet));
                let i = choose|i: int| 0 <= i < init.len() && init[i] == wallet;
                assert(fired[i] == wallet);
            } else if accepted(last.results@) {
                let k = choose|k: int| 0 <= k < refused(fired).len() && refused(fired)[k] == wallet;
                assert(refused(init)[k] == wallet);
                assert(refused(init).contains(wallet));
            }
        }
    }
}

/// The name of a wallet in a report.
pub open spec fn wallet_tag(index: usize, address: Address) -> Seq<char> {
    "[W"@ + decimal(index as nat) + "] "@ + checksum_text(address@)
}

/// Names a wallet in a report.
fn tag_wallet(index: usize, address: Address) -> (text: String)
    ensures
        text@ == wallet_tag(index, address),
{
    let mut text = prefixed("[W", to_decimal(index as u128).as_str());
    text.append("] ");
    text.append(address.to_text().as_str());
    text
}

/// Does any endpoint complain that the fee is below the base fee?
pub open spec fn fee_too_low(results: Seq<BlastResult>) -> bool {
    exists|i: int|
        0 <= i < results.len() && ((#[trigger] results[i]).error matches Some(error) && has_part(
            lowered(error@),
            "less than block base fee"@,
        ))
}

/// Tells whether any endpoint complains that the fee is below the base fee.
pub fn complains_of_base_fee(results: &[BlastResult]) -> (yes: bool)
    ensures
        yes == fee_too_low(results@),
{
    let mut i: usize = 0;
    while i < results.len()
        invariant
            i <= results@.len(),
            forall|j: int|
                0 <= j < i ==> !((#[trigger] results@[j]).error matches Some(error) && has_part(
                    lowered(error@),
                    "less than block base fee"@,
                )),
        decreases results@.len() - i,
    {
        if let Some(error) = &results[i].error {
            let lower = to_ascii_lowercase(error.as_str());
            if contains(lower.as_str(), "less than block base fee") {
                return true;
            }
        }
        i += 1;
    }
    false
}

/// What is told of a refused wallet: that it was refused, each reason once, and a hint where the
/// fee was too low.
pub open spec fn refusal_report(wallet: WalletResults) -> Seq<Seq<char>> {
    let reasons = distinct_reasons(wallet.results@);
    seq![wallet_tag(wallet.index, wallet.address) + " REJECTED by every RPC — never broadcast"@]
        + Seq::new(reasons.len(), |i: int| "    "@ + reasons[i]) + (if fee_too_low(
        wallet.results@,
    ) {
        seq!["    → max fee is under the chain's base fee. Raise it and re-run."@]
    } else {
        Seq::empty()
    })
}

/// Tells why a wallet was refused; every line is a warning.
pub fn report_refusal(wallet: &WalletResults) -> (lines: Vec<String>)
    ensures
        contents(lines@) == refusal_report(*wallet),
{
    let mut lines: Vec<String> = Vec::new();
    let mut head = tag_wallet(wallet.index, wallet.address);
    head.append(" REJECTED by every RPC — never broadcast");
    let ghost first = head@;
    lines.push(head);
    let reasons = rejection_reasons(wallet.results.as_slice());
    let ghost told = distinct_reasons(wallet.results@);
    let ghost indented = Seq::new(told.len(), |i: int| "    "@ + told[i]);
    let mut i: usize = 0;
    assert(contents(lines@) == seq![first] + indented.take(0));
    while i < reasons.len()
        invariant
            i <= reasons@.len(),
            texts(reasons@) == told,
            indented == Seq::new(told.len(), |i: int| "    "@ + told[i]),
            contents(lines@) == seq![first] + indented.take(i as int),
        decreases reasons@.len() - i,
    {
        let ghost before = contents(lines@);
        let line = prefixed("    ", reasons[i]);
        lines.push(line);
        assert(texts(reasons@)[i as int] == reasons@[i as int]@);
        assert(contents(lines@) == before.push(line@));
        i += 1;
        assert(indented.take(i as int) == indented.take(i - 1).push(indented[i - 1]));
        assert(contents(lines@) == seq![first] + indented.take(i as int));
    }
    assert(indented.take(i as int) == indented);
    if complains_of_base_fee(wallet.results.as_slice()) {
        let ghost before = contents(lines@);
        lines.push("    → max fee is under the chain's base fee. Raise it and re-run.".to_owned());
        assert(contents(lines@) == before.push(
            "    → max fee is under the chain's base fee. Raise it and re-run."@,
        ));
    }
    assert(contents(lines@) == refusal_report(*wallet));
    lines
}

/// What is told of all refused wallets, one after the other.
pub open spec fn refusal_reports(wallets: Seq<WalletResults>) -> Seq<Seq<char>>
    decreases wallets.len(),
{
    if wallets.len() == 0 {
        Seq::empty()
    } else {
        refusal_reports(wallets.drop_last()) + refusal_report(wallets.last())
    }
}

/// What a dispatch comes to.
#[derive(Debug)]
pub struct Settlement {
    /// What is told of the refused wallets.
    pub warnings: Vec<String>,
    /// The wallets whose transaction is out, and whose receipts are worth waiting for.
    pub accepted: Vec<WalletResults>,
}

/// Is `settlement` what a dispatch comes to?
pub open spec fn is_settlement(fired: Seq<WalletResults>, settlement: Settlement) -> bool {
    &&& settlement.accepted@ == taken(fired)
    &&& contents(settlement.warnings@) == refusal_reports(refused(fired))
}

/// Settles what a dispatch comes to.
pub fn settle(fired: Vec<WalletResults>) -> (settlement: Settlement)
    ensures
        is_settlement(fired@, settlement),
{
    let (accepted, rejected) = collect_results(fired);
    let mut warnings: Vec<String> = Vec::new();
    let mut i: usize = 0;
    assert(rejected@.take(0) == Seq::<WalletResults>::empty());
    assert(contents(warnings@) == Seq::<Seq<char>>::empty());
    while i < rejected.len()
        invariant
            i <= rejected@.len(),
            contents(warnings@) == refusal_reports(rejected@.take(i as int)),
        decreases rejected@.len() - i,
    {
        let ghost before = warnings@;
        let mut lines = report_refusal(&rejected[i]);
        let ghost more = lines@;
        warnings.append(&mut lines);
        assert(contents(before + more) == contents(before) + contents(more));
        i += 1;
        assert(rejected@.take(i as int).drop_last() == rejected@.take(i - 1));
    }
    assert(rejected@.take(i as int) == rejected@);
    Settlement { warnings, accepted }
}

/// The text of the first hash among the answers, from index `from` on; empty where there is none.
pub open spec fn first_hash(results: Seq<BlastResult>, from: int) -> Seq<char>
    decreases results.len() - from,
{
    if from >= results.len() {
        Seq::empty()
    } else {
        match results[from].tx_hash {
            Some(hash) => prefixed_hex(hash@),
            None => first_hash(results, from + 1),
        }
    }
}

/// Finds the hash under which a transaction can be looked up.
pub fn broadcast_hash(results: &[BlastResult]) -> (text: String)
    ensures
        text@ == first_hash(results@, 0),
{
    let mut i: usize = 0;
    while i < results.len()
        invariant
            i <= results@.len(),
            first_hash(results@, 0) == first_hash(results@, i as int),
        decreases results@.len() - i,
    {
        if let Some(hash) = results[i].tx_hash {
            return hash.to_text();
        }
        i += 1;
    }
    proof {
        reveal_strlit("");
        assert(""@ == Seq::<char>::empty());
    }
    "".to_owned()
}

/// The line about the block of a receipt.
pub open spec fn receipt_line(index: usize, address: Address, receipt: TransactionReceipt) -> Seq<
    char,
> {
    wallet_tag(index, address) + " | block "@ + decimal(receipt.block_number as nat) + " | "@ + (
    if receipt.is_success {
        "SUCCESS"@
    } else {
        "FAILED"@
    })
}

/// Are these the lines about a transaction that is out?
pub open spec fn is_receipt_report(
    chain_id: u64,
    index: usize,
    address: Address,
    tx_hash: Seq<char>,
    receipt: Option<TransactionReceipt>,
    lines: Seq<Line>,
) -> bool {
    match receipt {
        Some(found) => {
            &&& lines.len() == 2
            &&& says(
                lines[0],
                if found.is_success {
                    Level::Success
                } else {
                    Level::Error
                },
                receipt_line(index, address, found),
            )
            &&& says(
                lines[1],
                Level::Info,
                "[W"@ + decimal(index as nat) + "] track: "@ + explorer_link(chain_id, tx_hash),
            )
        },
        None => {
            &&& lines.len() == 1
            &&& says(
                lines[0],
                Level::Warning,
                "[W"@ + decimal(index as nat) + "] TIMEOUT — check: "@ + explorer_link(
                    chain_id,
                    tx_hash,
                ),
            )
        },
    }
}

/// Tells what became of a transaction that is out: its receipt, or that none came in time.
pub fn report_receipt(
    chain_id: u64,
    index: usize,
    address: Address,
    tx_hash: &str,
    receipt: Option<TransactionReceipt>,
) -> (lines: Vec<Line>)
    ensures
        is_receipt_report(chain_id, index, address, tx_hash@, receipt, lines@),
{
    let mut lines: Vec<Line> = Vec::new();
    let link = explorer_url(chain_id, tx_hash);
    let mut pointer = prefixed("[W", to_decimal(index as u128).as_str());
    match receipt {
        Some(found) => {
            let mut text = tag_wallet(index, address);
            text.append(" | block ");
            text.append(to_decimal(found.block_number as u128).as_str());
            text.append(" | ");
            if found.is_success {
                text.append("SUCCESS");
                lines.push(Line { level: Level::Success, text });
            } else {
                text.append("FAILED");
                lines.push(Line { level: Level::Error, text });
            }
            pointer.append("] track: ");
            pointer.append(link.as_str());
            lines.push(Line { level: Level::Info, text: pointer });
        },
        None => {
            pointer.append("] TIMEOUT — check: ");
            pointer.append(link.as_str());
            lines.push(Line { level: Level::Warning, text: pointer });
        },
    }
    lines
}

/// The wallets keep their order: one more at the end goes to the end of the list that it belongs to,
/// and the other list stays as it is.
pub proof fn law_parting_keeps_order(fired: Seq<WalletResults>, next: WalletResults)
    ensures
        taken(Seq::empty()) == Seq::<WalletResults>::empty(),
        refused(Seq::empty()) == Seq::<WalletResults>::empty(),
        accepted(next.results@) ==> taken(fired.push(next)) == taken(fired).push(next) && refused(
            fired.push(next),
        ) == refused(fired),
        !accepted(next.results@) ==> refused(fired.push(next)) == refused(fired).push(next)
            && taken(fired.push(next)) == taken(fired),
{
    reveal(Seq::filter);
    assert(fired.push(next).drop_last() == fired);
}

/// A wallet that any endpoint answered with a hash is never reported as refused.
pub proof fn law_hash_is_never_refused(fired: Seq<WalletResults>, i: int)
    requires
        0 <= i < fired.len(),
        exists|k: int|
            0 <= k < fired[i].results@.len() && (#[trigger] fired[i].results@[k]).tx_hash is Some,
    ensures
        taken(fired).contains(fired[i]),
        !refused(fired).contains(fired[i]),
{
    let k = choose|k: int|
        0 <= k < fired[i].results@.len() && (#[trigger] fired[i].results@[k]).tx_hash is Some;
    law_any_hash_is_accepted(fired[i].results@, k);
    law_every_wallet_is_reported(fired);
    assert(fired.contains(fired[i]));
}

/// The report of a refused wallet names it, quotes every reason once and in order, and ends with the
/// hint exactly where an endpoint complained of the base fee.
pub proof fn law_refusal_report(wallet: WalletResults)
    ensures
        ({
            let report = refusal_report(wallet);
            let reasons = distinct_reasons(wallet.results@);
            &&& report[0] == "[W"@ + decimal(wallet.index as nat) + "] "@ + checksum_text(
                wallet.address@,
            ) + " REJECTED by every RPC — never broadcast"@
            &&& forall|i: int|
                0 <= i < reasons.len() ==> #[trigger] report[i + 1] == "    "@ + reasons[i]
            &&& fee_too_low(wallet.results@) ==> report.len() == reasons.len() + 2 && report.last()
                == "    → max fee is under the chain's base fee. Raise it and re-run."@
            &&& !fee_too_low(wallet.results@) ==> report.len() == reasons.len() + 1
        }),
{
}

/// The complaint counts wherever in an error it stands, however its letters are cased, and whichever
/// endpoint makes it.
pub proof fn law_base_fee_complaints(
    results: Seq<BlastResult>,
    i: int,
    before: Seq<char>,
    phrase: Seq<char>,
    after: Seq<char>,
)
    requires
        0 <= i < results.len(),
        results[i].error is Some,
        results[i].error->0@ == before + phrase + after,
        lowered(phrase) == "less than block base fee"@,
    ensures
        fee_too_low(results),
{
    let error = before + phrase + after;
    let k = before.len() as int;
    assert(lowered(error).subrange(k, k + phrase.len()) == lowered(phrase));
    assert(occurs_at(lowered(error), lowered(phrase), k));
}

/// Where nobody's error holds the complaint, there is none.
pub proof fn law_no_base_fee_complaint(results: Seq<BlastResult>)
    requires
        forall|i: int|
            0 <= i < results.len() ==> ((#[trigger] results[i]).error matches Some(error)
                ==> !has_part(lowered(error@), "less than block base fee"@)),
    ensures
        !fee_too_low(results),
{
}

/// The reports of the refused wallets follow each other in the order of the wallets.
pub proof fn law_reports_follow_each_other(wallets: Seq<WalletResults>, next: WalletResults)
    ensures
        refusal_reports(Seq::empty()) == Seq::<Seq<char>>::empty(),
        refusal_reports(wallets.push(next)) == refusal_reports(wallets) + refusal_report(next),
{
    assert(wallets.push(next).drop_last() == wallets);
}

/// A transaction is looked up under the first hash among the answers; without a hash there is
/// nothing to look up.
pub proof fn law_first_hash_is_shown(results: Seq<BlastResult>, i: int)
    requires
        0 <= i <= results.len(),
        forall|j: int| 0 <= j < i ==> (#[trigger] results[j]).tx_hash is None,
    ensures
        i < results.len() ==> (results[i].tx_hash matches Some(hash) ==> first_hash(results, 0)
            == prefixed_hex(hash@)),
        i == results.len() ==> first_hash(results, 0) == Seq::<char>::empty(),
{
    lemma_first_hash_from(results, 0, i);
}

/// Answers without a hash are passed over.
proof fn lemma_first_hash_from(results: Seq<BlastResult>, from: int, i: int)
    requires
        0 <= from <= i <= results.len(),
        forall|j: int| from <= j < i ==> (#[trigger] results[j]).tx_hash is None,
    ensures
        first_hash(results, from) == first_hash(results, i),
    decreases i - from,
{
    if from < i {
        assert(results[from].tx_hash is None);
        lemma_first_hash_from(results, from + 1, i);
    }
}

/// The line about a receipt tells success from failure, and names the wallet and the block.
pub proof fn law_receipt_line(index: usize, address: Address, block_number: u64)
    ensures
        receipt_line(index, address, (TransactionReceipt { is_success: true, block_number }))
            == wallet_tag(index, address) + " | block "@ + decimal(block_number as nat)
            + " | SUCCESS"@,
        receipt_line(index, address, (TransactionReceipt { is_success: false, block_number }))
            == wallet_tag(index, address) + " | block "@ + decimal(block_number as nat)
            + " | FAILED"@,
        wallet_tag(index, address) == "[W"@ + decimal(index as nat) + "] "@ + checksum_text(
            address@,
        ),
{
    reveal_strlit(" | ");
    reveal_strlit("SUCCESS");
    reveal_strlit("FAILED");
    reveal_strlit(" | SUCCESS");
    reveal_strlit(" | FAILED");
    assert(" | "@ + "SUCCESS"@ == " | SUCCESS"@);
    assert(" | "@ + "FAILED"@ == " | FAILED"@);
}

/// A mined transaction is a success or an error according to its receipt and nothing else, and its
/// block and its link are told; one without a receipt is a warning, with the link.
pub proof fn law_receipt_report(
    chain_id: u64,
    index: usize,
    address: Address,
    tx_hash: Seq<char>,
    receipt: Option<TransactionReceipt>,
    lines: Seq<Line>,
)
    requires
        is_receipt_report(chain_id, index, address, tx_hash, receipt, lines),
    ensures
        receipt is None ==> lines.len() == 1 && lines[0].level == Level::Warning && lines[0].text@
            == "[W"@ + decimal(index as nat) + "] TIMEOUT — check: "@ + explorer_link(
            chain_id,
            tx_hash,
        ),
        receipt matches Some(found) ==> {
            &&& lines.len() == 2
            &&& found.is_success ==> lines[0].level == Level::Success
            &&& !found.is_success ==> lines[0].level == Level::Error
            &&& lines[0].text@ == "[W"@ + decimal(index as nat) + "] "@ + checksum_text(address@)
                + " | block "@ + decimal(found.block_number as nat) + (if found.is_success {
                " | SUCCESS"@
            } else {
                " | FAILED"@
            })
            &&& lines[1].level == Level::Info
            &&& lines[1].text@ == "[W"@ + decimal(index as nat) + "] track: "@ + explorer_link(
                chain_id,
                tx_hash,
            )
        },
{
    if let Some(found) = receipt {
        law_receipt_line(index, address, found.block_number);
    }
}

/// Every wallet that any endpoint answered with a hash is followed up, nothing is followed up that
/// was not sent, and where all are followed up there is nothing to warn of.
pub proof fn law_settlement(fired: Seq<WalletResults>, settlement: Settlement, i: int)
    requires
        is_settlement(fired, settlement),
        0 <= i < fired.len(),
    ensures
        (exists|k: int|
            0 <= k < fired[i].results@.len() && (#[trigger] fired[i].results@[k]).tx_hash is Some)
            ==> settlement.accepted@.contains(fired[i]),
        accepted(fired[i].results@) <==> settlement.accepted@.contains(fired[i]),
        forall|wallet: WalletResults| #[trigger]
            settlement.accepted@.contains(wallet) ==> fired.contains(wallet),
        !accepted(fired[i].results@) ==> settlement.warnings@.len() > 0,
        (forall|j: int| 0 <= j < fired.len() ==> accepted((#[trigger] fired[j]).results@))
            ==> settlement.warnings@.len() == 0 && settlement.accepted@ == fired,
{
    law_every_wallet_is_reported(fired);
    assert(fired.contains(fired[i]));
    if exists|k: int|
        0 <= k < fired[i].results@.len() && (#[trigger] fired[i].results@[k]).tx_hash is Some {
        law_hash_is_never_refused(fired, i);
    }
    if !accepted(fired[i].results@) {
        assert(refused(fired).contains(fired[i]));
        lemma_refusals_are_told(refused(fired));
    }
    if forall|j: int| 0 <= j < fired.len() ==> accepted((#[trigger] fired[j]).results@) {
        lemma_all_taken(fired);
    }
    assert(contents(settlement.warnings@).len() == settlement.warnings@.len());
}

/// Where anybody was refused, something is told.
proof fn lemma_refusals_are_told(wallets: Seq<WalletResults>)
    ensures
        wallets.len() > 0 ==> refusal_reports(wallets).len() > 0,
{
    if wallets.len() > 0 {
        assert(refusal_report(wallets.last()).len() > 0);
    }
}

/// Where all are taken, nobody is refused.
proof fn lemma_all_taken(fired: Seq<WalletResults>)
    requires
        forall|j: int| 0 <= j < fired.len() ==> accepted((#[trigger] fired[j]).results@),
    ensures
        taken(fired) == fired,
        refused(fired).len() == 0,
    decreases fired.len(),
{
    reveal(Seq::filter);
    if fired.len() > 0 {
        let init = fired.drop_last();
        assert forall|j: int| 0 <= j < init.len() implies accepted((#[trigger] init[j]).results@) by {
            assert(init[j] == fired[j]);
        }
        lemma_all_taken(init);
        assert(accepted(fired[fired.len() - 1].results@));
        assert(init.push(fired.last()) == fired);
    }
}

} // verus!
