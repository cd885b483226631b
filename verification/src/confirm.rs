//! The last question before a snipe: what it would do, and whether it should.

use vstd::prelude::*;

use crate::actions::{button, effects, message, only, row_value, BotAction, Button, Effect};
use crate::bot::{tell, without_wizard, wizard_values, Bot, Chats, Turn};
use crate::hexdata::{checksum_text, Address};
use crate::snipe::{format_gwei, gwei_text, prefixed, SnipeError};
use crate::text::{decimal, has_part, occurs_at, to_decimal};
use crate::uint::{amount_text, U256};
use crate::wizard::{Answers, Wizard};

verus! {

broadcast use vstd::std_specs::hash::group_hash_axioms;

/// What a look at a snipe found.
#[derive(Debug)]
pub struct Preview {
    /// The collection's contract.
    pub nft_contract: Address,
    /// The name of the chain.
    pub chain_name: String,
    /// The price of one token in wei.
    pub price: U256,
    /// When the stage opens, in seconds since the epoch.
    pub start_time: u64,
    /// How many wallets would take part.
    pub wallet_count: usize,
}

/// At most the greatest signed number of 64 bits.
pub open spec fn signed_limit(n: u64) -> u64 {
    if n <= i64::MAX {
        n
    } else {
        i64::MAX as u64
    }
}

/// Is the stage open?
pub open spec fn is_live(start_time: u64, now: u64) -> bool {
    signed_limit(start_time) <= signed_limit(now)
}

/// Tells whether the stage is open; both times are in seconds since the epoch.
pub fn stage_is_live(start_time: u64, now: u64) -> (live: bool)
    ensures
        live == is_live(start_time, now),
{
    start_time <= now || (now >= i64::MAX as u64)
}

/// A list of indices as a text, with commas.
pub open spec fn index_list(indices: Seq<usize>) -> Seq<char>
    decreases indices.len(),
{
    if indices.len() == 0 {
        Seq::empty()
    } else if indices.len() == 1 {
        decimal(indices[0] as nat)
    } else {
        index_list(indices.drop_last()) + ", "@ + decimal(indices.last() as nat)
    }
}

/// Which wallets take part, as it is told.
pub open spec fn wallet_label(wallets: Option<Seq<usize>>, wallet_count: usize) -> Seq<char> {
    if wallets matches Some(indices) && indices.len() > 0 {
        decimal(wallets->0.len()) + " wallet(s) — indices ["@ + index_list(wallets->0) + "]"@
    } else {
        decimal(wallet_count as nat) + " wallet(s) — all"@
    }
}

/// The gas price, as it is told.
pub open spec fn gas_label(max_fee: Option<nat>, priority_fee: Option<nat>) -> Seq<char> {
    match (max_fee, priority_fee) {
        (Some(max), Some(priority)) => "max "@ + gwei_text(max) + " / priority "@ + gwei_text(
            priority,
        ) + " gwei"@,
        (Some(max), None) => "max "@ + gwei_text(max) + " gwei / priority auto"@,
        (None, Some(priority)) => "max auto / priority "@ + gwei_text(priority) + " gwei"@,
        (None, None) => "auto (chain estimate)"@,
    }
}

/// What is told of a snipe before it runs. `eth` is the price in ether.
pub open spec fn summary_text(
    answers: Answers,
    preview: Preview,
    live: bool,
    eth: Seq<char>,
) -> Seq<char> {
    "🎯 Snipe preview — "@ + (if live {
        "🟢 live now"@
    } else {
        "⏳ scheduled"@
    }) + "\n\n📦 "@ + checksum_text(preview.nft_contract@) + "\n⛓️ "@ + preview.chain_name@
        + "\n💰 price "@ + decimal(preview.price@) + " wei ("@ + eth + " ETH)\n🗂 "@ + wallet_label(
        answers.wallets,
        preview.wallet_count,
    ) + "\n⛽ "@ + gas_label(answers.max_fee, answers.priority_fee) + "\n🔥 early fire: "@ + decimal(
        answers.early_fire_ms as nat,
    ) + " ms\n\nConfirm?"@
}

/// The buttons of the last question.
pub open spec fn fire_row() -> Seq<(Seq<char>, Seq<char>)> {
    seq![("✅ FIRE"@, "fire:yes"@), ("❌ Cancel"@, "fire:no"@)]
}

/// Writes a list of indices.
fn write_indices(indices: &Vec<usize>) -> (text: String)
    ensures
        text@ == index_list(indices@),
{
    let mut text = "".to_owned();
    let mut i: usize = 0;
    proof {
        reveal_strlit("");
        assert(""@ == Seq::<char>::empty());
        assert(indices@.take(0) == Seq::<usize>::empty());
    }
    while i < indices.len()
        invariant
            i <= indices@.len(),
            text@ == index_list(indices@.take(i as int)),
        decreases indices@.len() - i,
    {
        let ghost next = indices@.take(i + 1);
        proof {
            assert(next.drop_last() == indices@.take(i as int));
            assert(next.last() == indices@[i as int]);
            if i == 0 {
                assert(next[0] == indices@[0]);
            }
        }
        if i > 0 {
            text.append(", ");
        }
        text.append(to_decimal(indices[i] as u128).as_str());
        assert(text@ == index_list(next));
        i += 1;
    }
    assert(indices@.take(i as int) == indices@);
    text
}

/// Tells which wallets take part.
fn write_wallet_label(wallets: &Option<Vec<usize>>, wallet_count: usize) -> (text: String)
    ensures
        text@ == wallet_label(crate::snipe::list_value(*wallets), wallet_count),
{
    if let Some(indices) = wallets {
        if indices.len() > 0 {
            let mut text = to_decimal(indices.len() as u128);
            text.append(" wallet(s) — indices [");
            text.append(write_indices(indices).as_str());
            text.append("]");
            return text;
        }
    }
    let mut text = to_decimal(wallet_count as u128);
    text.append(" wallet(s) — all");
    text
}

/// Tells the gas price.
fn write_gas_label(max_fee: Option<U256>, priority_fee: Option<U256>) -> (text: String)
    ensures
        text@ == gas_label(
            crate::snipe::amount_value(max_fee),
            crate::snipe::amount_value(priority_fee),
        ),
{
    match (max_fee, priority_fee) {
        (Some(max), Some(priority)) => {
            let mut text = prefixed("max ", format_gwei(max).as_str());
            text.append(" / priority ");
            text.append(format_gwei(priority).as_str());
            text.append(" gwei");
            text
        },
        (Some(max), None) => {
            let mut text = prefixed("max ", format_gwei(max).as_str());
            text.append(" gwei / priority auto");
            text
        },
        (None, Some(priority)) => {
            let mut text = prefixed("max auto / priority ", format_gwei(priority).as_str());
            text.append(" gwei");
            text
        },
        (None, None) => "auto (chain estimate)".to_owned(),
    }
}

/// Writes what is told of a snipe before it runs.
pub fn write_summary(wizard: &Wizard, preview: &Preview, now: u64, eth: &str) -> (text: String)
    ensures
        text@ == summary_text(wizard@, *preview, is_live(preview.start_time, now), eth@),
{
    let mut text = "🎯 Snipe preview — ".to_owned();
    if stage_is_live(preview.start_time, now) {
        text.append("🟢 live now");
    } else {
        text.append("⏳ scheduled");
    }
    text.append("\n\n📦 ");
    text.append(preview.nft_contract.to_text().as_str());
    text.append("\n⛓️ ");
    text.append(preview.chain_name.as_str());
    text.append("\n💰 price ");
    text.append(amount_text(preview.price).as_str());
    text.append(" wei (");
    text.append(eth);
    text.append(" ETH)\n🗂 ");
    text.append(write_wallet_label(&wizard.wallets, preview.wallet_count).as_str());
    text.append("\n⛽ ");
    text.append(
        write_gas_label(wizard.max_fee_per_gas, wizard.max_priority_fee_per_gas).as_str(),
    );
    text.append("\n🔥 early fire: ");
    text.append(to_decimal(wizard.early_fire_ms as u128).as_str());
    text.append(" ms\n\nConfirm?");
    text
}

/// The row of buttons of the last question.
fn fire_buttons() -> (row: Vec<Button>)
    ensures
        row_value(row@) == fire_row(),
{
    let mut row: Vec<Button> = Vec::new();
    row.push(button("✅ FIRE", "fire:yes"));
    row.push(button("❌ Cancel", "fire:no"));
    assert(row_value(row@) == fire_row());
    row
}

/// What a look at a snipe comes to: the last question, or the end of the chat's wizard where the look
/// failed.
pub open spec fn confirm_turn(
    chats: Chats,
    chat_id: i64,
    answers: Answers,
    outcome: Result<Preview, SnipeError>,
    now: u64,
    eth: Seq<char>,
) -> Turn {
    match outcome {
        Ok(preview) => Turn {
            chats,
            effects: seq![
                Effect::SendKeyboard(
                    chat_id,
                    summary_text(answers, preview, is_live(preview.start_time, now), eth),
                    fire_row(),
                ),
            ],
        },
        Err(error) => tell(
            without_wizard(chats, chat_id),
            chat_id,
            "❌ Cannot preview this snipe: "@ + error.spec_message()
                + "\n\nSend /snipe to try again."@,
        ),
    }
}

impl Bot {
    /// Goes on after a look at the snipe that a wizard asked for: asks whether to fire it, or gives
    /// the chat's wizard up where the look failed. `now` is in seconds since the epoch, and `eth` is
    /// the price in ether.
    pub fn show_confirm(
        &mut self,
        chat_id: i64,
        wizard: &Wizard,
        outcome: Result<Preview, SnipeError>,
        now: u64,
        eth: &str,
    ) -> (actions: Vec<BotAction>)
        ensures
            Bot::took(
                *old(self),
                *final(self),
                actions@,
                confirm_turn(old(self).chats(), chat_id, wizard@, outcome, now, eth@),
            ),
    {
        match outcome {
            Ok(preview) => {
                let text = write_summary(wizard, &preview, now, eth);
                only(BotAction::SendKeyboard { chat_id, text, row: fire_buttons() })
            },
            Err(error) => {
                self.wizards.remove(&chat_id);
                proof {
                    assert(wizard_values(old(self).wizards@.remove(chat_id)) =~= wizard_values(
                        old(self).wizards@,
                    ).remove(chat_id));
                }
                let mut text = prefixed("❌ Cannot preview this snipe: ", error.message().as_str());
                text.append("\n\nSend /snipe to try again.");
                only(message(chat_id, text.as_str()))
            },
        }
    }
}

/// A stage is live from the second at which it starts. (Times beyond 63 bits all count as the last
/// one.)
pub proof fn law_live_from_the_start(start_time: u64, now: u64)
    ensures
        now >= start_time ==> is_live(start_time, now),
        now < start_time && now < i64::MAX ==> !is_live(start_time, now),
{
}

/// Both fees are told, each in its place, and a fee that was left open is told to be automatic.
pub proof fn law_gas_label(max_fee: nat, priority_fee: nat)
    ensures
        gas_label(Some(max_fee), Some(priority_fee)) == "max "@ + gwei_text(max_fee)
            + " / priority "@ + gwei_text(priority_fee) + " gwei"@,
        gas_label(Some(max_fee), None) == "max "@ + gwei_text(max_fee) + " gwei / priority auto"@,
        gas_label(None, Some(priority_fee)) == "max auto / priority "@ + gwei_text(priority_fee)
            + " gwei"@,
        gas_label(None, None) == "auto (chain estimate)"@,
{
}

/// The wallets that were selected are counted and listed in order; where none was, all are counted.
pub proof fn law_wallet_label(indices: Seq<usize>, next: usize, wallet_count: usize)
    ensures
        wallet_label(None, wallet_count) == decimal(wallet_count as nat) + " wallet(s) — all"@,
        wallet_label(Some(Seq::empty()), wallet_count) == decimal(wallet_count as nat)
            + " wallet(s) — all"@,
        indices.len() > 0 ==> wallet_label(Some(indices), wallet_count) == decimal(indices.len())
            + " wallet(s) — indices ["@ + index_list(indices) + "]"@,
        index_list(seq![next]) == decimal(next as nat),
        indices.len() > 0 ==> index_list(indices.push(next)) == index_list(indices) + ", "@
            + decimal(next as nat),
{
    assert(indices.push(next).drop_last() == indices);
}

/// The last question tells what would be done: whether the stage is open, the contract, the chain,
/// the price, the wallets, the gas price and the lead, each as it is.
pub proof fn law_summary_tells_everything(
    answers: Answers,
    preview: Preview,
    live: bool,
    eth: Seq<char>,
)
    ensures
        ({
            let text = summary_text(answers, preview, live, eth);
            let state = if live {
                "🟢 live now"@
            } else {
                "⏳ scheduled"@
            };
            &&& has_part(text, "🎯 Snipe preview — "@ + state + "\n\n📦 "@)
            &&& has_part(text, "\n\n📦 "@ + checksum_text(preview.nft_contract@) + "\n⛓️ "@)
            &&& has_part(text, "\n⛓️ "@ + preview.chain_name@ + "\n💰 price "@)
            &&& has_part(text, "\n💰 price "@ + decimal(preview.price@) + " wei ("@)
            &&& has_part(text, " wei ("@ + eth + " ETH)\n🗂 "@)
            &&& has_part(text, " ETH)\n🗂 "@ + wallet_label(answers.wallets, preview.wallet_count) + "\n⛽ "@)
            &&& has_part(text, "\n⛽ "@ + gas_label(answers.max_fee, answers.priority_fee) + "\n🔥 early fire: "@)
            &&& has_part(text, "\n🔥 early fire: "@ + decimal(answers.early_fire_ms as nat) + " ms\n\nConfirm?"@)
        }),
{
    let state = if live {
        "🟢 live now"@
    } else {
        "⏳ scheduled"@
    };
    lemma_parts_of_a_row(
        seq![
            "🎯 Snipe preview — "@,
            "\n\n📦 "@,
            "\n⛓️ "@,
            "\n💰 price "@,
            " wei ("@,
            " ETH)\n🗂 "@,
            "\n⛽ "@,
            "\n🔥 early fire: "@,
            " ms\n\nConfirm?"@,
        ],
        seq![
            state,
            checksum_text(preview.nft_contract@),
            preview.chain_name@,
            decimal(preview.price@),
            eth,
            wallet_label(answers.wallets, preview.wallet_count),
            gas_label(answers.max_fee, answers.priority_fee),
            decimal(answers.early_fire_ms as nat),
        ],
        summary_text(answers, preview, live, eth),
    );
}

/// Where nine fixed texts and eight values take turns, each value stands between its two texts.
proof fn lemma_parts_of_a_row(l: Seq<Seq<char>>, v: Seq<Seq<char>>, s: Seq<char>)
    requires
        l.len() == 9,
        v.len() == 8,
        s == l[0] + v[0] + l[1] + v[1] + l[2] + v[2] + l[3] + v[3] + l[4] + v[4] + l[5] + v[5] + l[6] + v[6]
            + l[7] + v[7] + l[8],
    ensures
        forall|i: int| 0 <= i < 8 ==> has_part(s, l[i] + #[trigger] v[i] + l[i + 1]),
{
    let none = Seq::<char>::empty();
    let b0 = none;
    let b1 = l[0] + v[0];
    let b2 = b1 + l[1] + v[1];
    let b3 = b2 + l[2] + v[2];
    let b4 = b3 + l[3] + v[3];
    let b5 = b4 + l[4] + v[4];
    let b6 = b5 + l[5] + v[5];
    let b7 = b6 + l[6] + v[6];
    let t8 = none;
    assert(s == (b7 + l[7]) + (v[7] + l[8] + t8));
    lemma_middle(b7, l[7], v[7], l[8], t8, s);
    let t7 = v[7] + l[8] + t8;
    lemma_regroup(b6, l[6], v[6], l[7], t7);
    lemma_middle(b6, l[6], v[6], l[7], t7, s);
    let t6 = v[6] + l[7] + t7;
    lemma_regroup(b5, l[5], v[5], l[6], t6);
    lemma_middle(b5, l[5], v[5], l[6], t6, s);
    let t5 = v[5] + l[6] + t6;
    lemma_regroup(b4, l[4], v[4], l[5], t5);
    lemma_middle(b4, l[4], v[4], l[5], t5, s);
    let t4 = v[4] + l[5] + t5;
    lemma_regroup(b3, l[3], v[3], l[4], t4);
    lemma_middle(b3, l[3], v[3], l[4], t4, s);
    let t3 = v[3] + l[4] + t4;
    lemma_regroup(b2, l[2], v[2], l[3], t3);
    lemma_middle(b2, l[2], v[2], l[3], t3, s);
    let t2 = v[2] + l[3] + t3;
    lemma_regroup(b1, l[1], v[1], l[2], t2);
    lemma_middle(b1, l[1], v[1], l[2], t2, s);
    let t1 = v[1] + l[2] + t2;
    assert(b1 == none + l[0] + v[0]);
    lemma_regroup(b0, l[0], v[0], l[1], t1);
    lemma_middle(b0, l[0], v[0], l[1], t1, s);
}

/// Five texts in a row, taken together in another way.
proof fn lemma_regroup(
    before: Seq<char>,
    left: Seq<char>,
    value: Seq<char>,
    right: Seq<char>,
    after: Seq<char>,
)
    ensures
        before + left + value + right + after == (before + left) + (value + right + after),
{
    assert(before + left + value + right + after == (before + left) + (value + right + after));
}

/// What stands in the middle of a text is a part of it.
proof fn lemma_middle(
    before: Seq<char>,
    left: Seq<char>,
    value: Seq<char>,
    right: Seq<char>,
    after: Seq<char>,
    s: Seq<char>,
)
    requires
        s == (before + left) + (value + right + after),
    ensures
        has_part(s, left + value + right),
{
    let part = left + value + right;
    let k = before.len() as int;
    assert(s.subrange(k, k + part.len()) == part);
    assert(occurs_at(s, part, k));
}

/// The buttons of the last question are the press that fires and the press that gives up.
pub proof fn law_fire_row()
    ensures
        fire_row().len() == 2,
        fire_row()[0] == ("✅ FIRE"@, "fire:yes"@),
        fire_row()[1] == ("❌ Cancel"@, "fire:no"@),
{
}

/// A look at a snipe runs nothing: it ends in the question whether to fire, with all wizards as they
/// were, or, where it failed, in the chat's wizard being given up and the chat being told why.
pub proof fn law_looking_runs_nothing(
    chats: Chats,
    chat_id: i64,
    answers: Answers,
    outcome: Result<Preview, SnipeError>,
    now: u64,
    eth: Seq<char>,
)
    ensures
        ({
            let turn = confirm_turn(chats, chat_id, answers, outcome, now, eth);
            &&& turn.chats.active == chats.active
            &&& turn.effects.len() == 1
            &&& outcome matches Ok(preview) ==> {
                &&& turn.chats == chats
                &&& turn.effects[0] matches Effect::SendKeyboard(chat, text, row) && {
                    &&& chat == chat_id
                    &&& text == summary_text(
                        answers,
                        preview,
                        is_live(preview.start_time, now),
                        eth,
                    )
                    &&& row == seq![("✅ FIRE"@, "fire:yes"@), ("❌ Cancel"@, "fire:no"@)]
                }
            }
            &&& outcome matches Err(error) ==> {
                &&& turn.chats.wizards == chats.wizards.remove(chat_id)
                &&& turn.effects[0] == Effect::Send(
                    chat_id,
                    "❌ Cannot preview this snipe: "@ + error.spec_message()
                        + "\n\nSend /snipe to try again."@,
                )
            }
        }),
{
}

} // verus!
