//! The chats of the bot: who may talk to it, what it is asked, and what it does.

use std::collections::HashMap;

use vstd::prelude::*;

use crate::actions::{
    both, button, effects, message, nothing, only, reaches, row_value, BotAction, Button, Effect,
};
use crate::json::{or_empty, string_member, text_member, Json};
use crate::snipe::{gwei_text, prefixed, SnipeError};
use crate::text::{
    contents, decimal, finishes_with, first_word, is_white, law_decimal_parses, law_first_word,
    law_prefix_comes_off, law_trimming_keeps_the_middle, lowered, parse_u64, same, strip_prefix,
    take_word, to_ascii_lowercase, to_decimal, trim, trimmed, unsigned_value, without_prefix,
};
use crate::wizard::{
    gas_answer, law_typed_fees_are_taken, law_typed_indices_are_selected, no_answers, parse_gas,
    parse_wallet_selection, selection_text, snipe_of, snipe_options, wallet_selection, Answers, Step,
    Wizard,
};

verus! {

broadcast use vstd::std_specs::hash::group_hash_axioms;

/// What `/help` answers.
pub const HELP: &'static str = "🦈 SeaDrop sniper bot\n\nCommands:\n/wallets — list manifest wallets (addresses only)\n/snipe — start a snipe wizard (collection → chain → qty → wallets → gas → early fire)\n/cancel — abandon the current wizard\n/status — active snipe count\n/help — this message\n\n📎 Import a manifest by uploading a wallets.json file — keys are saved server-side and never shown in chat.";

/// What `/snipe` answers.
pub const ASK_COLLECTION: &'static str = "🎯 Start a snipe.\n\nSend the collection: an OpenSea link, a slug, or the 0x contract address.\n\n/cancel to abort.";

/// The question for the quantity.
pub const ASK_QUANTITY: &'static str = "Quantity per wallet? Send a number (default 1).";

/// The question for the wallets.
pub const ASK_WALLETS: &'static str = "Which wallets? Send indices from /wallets (e.g. `0,1,2`) or `all`.";

/// The question for the gas price.
pub const ASK_GAS: &'static str = "Gas: send `max/priority` in gwei (e.g. `0.05/0.01`) or `auto`.";

/// The question for the early moment.
pub const ASK_EARLY: &'static str = "Early fire (ms before stage open)? Send a number or `0`.";

/// What is said when a snipe is about to run.
pub const ARMING: &'static str = "🎯 Arming — signing is done before the stage opens; progress will stream here.";

/// The chats as a value.
pub struct Chats {
    /// The wizard of each chat that has one.
    pub wizards: Map<i64, Answers>,
    /// How many snipes of each chat are running, where any are.
    pub active: Map<i64, usize>,
}

/// The bot.
#[derive(Debug)]
pub struct Bot {
    /// The chats that may talk to it.
    pub allowed: Vec<i64>,
    /// The wallets file.
    pub wallets_file: String,
    /// The wizard of each chat that has one.
    pub wizards: HashMap<i64, Wizard>,
    /// How many snipes of each chat are running, where any are.
    pub active: HashMap<i64, usize>,
}

/// The answers of each wizard.
pub open spec fn wizard_values(wizards: Map<i64, Wizard>) -> Map<i64, Answers> {
    wizards.map_values(|wizard: Wizard| wizard@)
}

impl Bot {
    /// The chats as a value.
    pub open spec fn chats(self) -> Chats {
        Chats { wizards: wizard_values(self.wizards@), active: self.active@ }
    }

    /// May this chat talk to the bot?
    pub open spec fn allows(self, chat_id: i64) -> bool {
        self.allowed@.contains(chat_id)
    }

    /// Nobody has talked to the bot yet.
    pub fn new(allowed: Vec<i64>, wallets_file: String) -> (bot: Bot)
        ensures
            bot.allowed == allowed,
            bot.wallets_file == wallets_file,
            bot.chats().wizards == Map::<i64, Answers>::empty(),
            bot.chats().active == Map::<i64, usize>::empty(),
    {
        let bot = Bot { allowed, wallets_file, wizards: HashMap::new(), active: HashMap::new() };
        assert(wizard_values(bot.wizards@) == Map::<i64, Answers>::empty());
        bot
    }

    /// Tells whether a chat may talk to the bot.
    pub fn is_allowed(&self, chat_id: i64) -> (yes: bool)
        ensures
            yes == self.allows(chat_id),
    {
        let mut i: usize = 0;
        while i < self.allowed.len()
            invariant
                i <= self.allowed@.len(),
                forall|j: int| 0 <= j < i ==> self.allowed@[j] != chat_id,
            decreases self.allowed@.len() - i,
        {
            if self.allowed[i] == chat_id {
                assert(self.allowed@[i as int] == chat_id);
                return true;
            }
            i += 1;
        }
        false
    }
}

/// The wizard's answers after one more of them. An answer that cannot be used changes nothing, and
/// the chain is not answered by a text.
pub open spec fn next_answers(answers: Answers, text: Seq<char>) -> Answers {
    match answers.step {
        Step::Collection => Answers { collection: trimmed(text), step: Step::Chain, ..answers },
        Step::Chain => answers,
        Step::Quantity => match unsigned_value(text, u64::MAX as nat) {
            Some(quantity) => if quantity > 0 {
                Answers { quantity: quantity as u64, step: Step::Wallets, ..answers }
            } else {
                answers
            },
            None => answers,
        },
        Step::Wallets => match wallet_selection(text) {
            Ok(indices) => Answers { wallets: Some(indices), step: Step::Gas, ..answers },
            Err(_) => answers,
        },
        Step::Gas => match gas_answer(text) {
            Ok((max_fee, priority_fee)) => Answers {
                max_fee,
                priority_fee,
                step: Step::Early,
                ..answers
            },
            Err(_) => answers,
        },
        Step::Early => match unsigned_value(text, u64::MAX as nat) {
            Some(early) => Answers { early_fire_ms: early as u64, step: Step::Confirm, ..answers },
            None => answers,
        },
        Step::Confirm => answers,
    }
}

/// The buttons of the chains.
pub open spec fn chain_row() -> Seq<(Seq<char>, Seq<char>)> {
    seq![
        ("Base"@, "chain:base"@),
        ("Ethereum"@, "chain:ethereum"@),
        ("Robinhood"@, "chain:robinhood"@),
    ]
}

/// What follows an answer: the next question, the same one again, or, at the end, a look at the
/// snipe.
pub open spec fn answer_effect(
    answers: Answers,
    chat_id: i64,
    text: Seq<char>,
    wallets_file: Seq<char>,
    rpc_urls: Seq<Seq<char>>,
) -> Effect {
    match answers.step {
        Step::Collection => Effect::SendKeyboard(chat_id, "Which chain?"@, chain_row()),
        Step::Chain => Effect::Send(chat_id, "Use the chain buttons above."@),
        Step::Quantity => match unsigned_value(text, u64::MAX as nat) {
            Some(quantity) => if quantity > 0 {
                Effect::Send(chat_id, ASK_WALLETS@)
            } else {
                Effect::Send(chat_id, "Send a positive integer for quantity."@)
            },
            None => Effect::Send(chat_id, "Send a positive integer for quantity."@),
        },
        Step::Wallets => match wallet_selection(text) {
            Ok(_) => Effect::Send(chat_id, ASK_GAS@),
            Err(reply) => Effect::Send(chat_id, reply),
        },
        Step::Gas => match gas_answer(text) {
            Ok(_) => Effect::Send(chat_id, ASK_EARLY@),
            Err(reply) => Effect::Send(chat_id, reply),
        },
        Step::Early => match unsigned_value(text, u64::MAX as nat) {
            Some(_) => Effect::Preview(
                chat_id,
                next_answers(answers, text),
                snipe_of(
                    next_answers(answers, text),
                    or_empty(answers.chain),
                    wallets_file,
                    rpc_urls,
                ),
            ),
            None => Effect::Send(chat_id, "Send a number of milliseconds or `0`."@),
        },
        Step::Confirm => Effect::Send(
            chat_id,
            "Wizard already at confirm — press FIRE or send /cancel."@,
        ),
    }
}

/// The row of chain buttons.
fn chain_buttons() -> (row: Vec<Button>)
    ensures
        row_value(row@) == chain_row(),
{
    let mut row: Vec<Button> = Vec::new();
    row.push(button("Base", "chain:base"));
    row.push(button("Ethereum", "chain:ethereum"));
    row.push(button("Robinhood", "chain:robinhood"));
    assert(row_value(row@) == chain_row());
    row
}

/// Takes one answer of a wizard.
pub fn take_answer(
    wizard: Wizard,
    chat_id: i64,
    text: &str,
    wallets_file: &str,
    rpc_urls: &Vec<String>,
) -> (turn: (Wizard, BotAction))
    ensures
        turn.0@ == next_answers(wizard@, text@),
        turn.1@ == answer_effect(wizard@, chat_id, text@, wallets_file@, contents(rpc_urls@)),
{
    let mut wizard = wizard;
    match wizard.step {
        Step::Collection => {
            wizard.collection = trim(text).to_owned();
            wizard.step = Step::Chain;
            let action = BotAction::SendKeyboard {
                chat_id,
                text: "Which chain?".to_owned(),
                row: chain_buttons(),
            };
            (wizard, action)
        },
        Step::Chain => (wizard, message(chat_id, "Use the chain buttons above.")),
        Step::Quantity => match parse_u64(text) {
            Some(quantity) => {
                if quantity > 0 {
                    wizard.quantity = quantity;
                    wizard.step = Step::Wallets;
                    (wizard, message(chat_id, ASK_WALLETS))
                } else {
                    (wizard, message(chat_id, "Send a positive integer for quantity."))
                }
            },
            None => (wizard, message(chat_id, "Send a positive integer for quantity.")),
        },
        Step::Wallets => match parse_wallet_selection(text) {
            Ok(selection) => {
                wizard.wallets = Some(selection);
                wizard.step = Step::Gas;
                (wizard, message(chat_id, ASK_GAS))
            },
            Err(reply) => (wizard, message(chat_id, reply.as_str())),
        },
        Step::Gas => match parse_gas(text) {
            Ok((max, priority)) => {
                wizard.max_fee_per_gas = max;
                wizard.max_priority_fee_per_gas = priority;
                wizard.step = Step::Early;
                (wizard, message(chat_id, ASK_EARLY))
            },
            Err(reply) => (wizard, message(chat_id, reply.as_str())),
        },
        Step::Early => match parse_u64(text) {
            Some(early) => {
                wizard.early_fire_ms = early;
                wizard.step = Step::Confirm;
                proof {
                    reveal_strlit("");
                    assert(""@ == Seq::<char>::empty());
                }
                let chain = match &wizard.chain {
                    Some(chain) => chain.as_str(),
                    None => "",
                };
                let options = snipe_options(&wizard, chain, wallets_file, rpc_urls);
                let copy = wizard.clone();
                (wizard, BotAction::Preview { chat_id, wizard: copy, options })
            },
            None => (wizard, message(chat_id, "Send a number of milliseconds or `0`.")),
        },
        Step::Confirm => (
            wizard,
            message(chat_id, "Wizard already at confirm — press FIRE or send /cancel."),
        ),
    }
}

/// The chats after an event, and what is to be done about it.
pub struct Turn {
    /// The chats.
    pub chats: Chats,
    /// What is to be done, in this order.
    pub effects: Seq<Effect>,
}

/// Nothing happens.
pub open spec fn no_turn(chats: Chats) -> Turn {
    Turn { chats, effects: Seq::empty() }
}

/// A chat is told something, and nothing else happens.
pub open spec fn tell(chats: Chats, chat_id: i64, text: Seq<char>) -> Turn {
    Turn { chats, effects: seq![Effect::Send(chat_id, text)] }
}

/// The chats with another wizard for one of them.
pub open spec fn with_wizard(chats: Chats, chat_id: i64, answers: Answers) -> Chats {
    Chats { wizards: chats.wizards.insert(chat_id, answers), active: chats.active }
}

/// The chats without the wizard of one of them.
pub open spec fn without_wizard(chats: Chats, chat_id: i64) -> Chats {
    Chats { wizards: chats.wizards.remove(chat_id), active: chats.active }
}

/// How many snipes of a chat are running.
pub open spec fn running(chats: Chats, chat_id: i64) -> usize {
    if chats.active.contains_key(chat_id) {
        chats.active[chat_id]
    } else {
        0
    }
}

/// The chats with one more snipe running.
pub open spec fn one_more(chats: Chats, chat_id: i64) -> Chats {
    Chats {
        wizards: chats.wizards,
        active: chats.active.insert(chat_id, (running(chats, chat_id) + 1) as usize),
    }
}

/// The chats with one snipe fewer running; a chat without any is not counted.
pub open spec fn one_less(chats: Chats, chat_id: i64) -> Chats {
    Chats {
        wizards: chats.wizards,
        active: if running(chats, chat_id) <= 1 {
            chats.active.remove(chat_id)
        } else {
            chats.active.insert(chat_id, (running(chats, chat_id) - 1) as usize)
        },
    }
}

/// What an answer to a wizard's question comes to.
pub open spec fn advance_turn(
    chats: Chats,
    chat_id: i64,
    text: Seq<char>,
    wallets_file: Seq<char>,
    rpc_urls: Seq<Seq<char>>,
) -> Turn {
    if chats.wizards.contains_key(chat_id) {
        let answers = chats.wizards[chat_id];
        Turn {
            chats: with_wizard(chats, chat_id, next_answers(answers, text)),
            effects: seq![answer_effect(answers, chat_id, text, wallets_file, rpc_urls)],
        }
    } else {
        tell(chats, chat_id, "No wizard active — send /snipe to start one."@)
    }
}

/// What a command comes to.
pub open spec fn command_turn(chats: Chats, chat_id: i64, command: Seq<char>) -> Turn {
    if command == "start"@ || command == "help"@ {
        tell(chats, chat_id, HELP@)
    } else if command == "wallets"@ {
        Turn { chats, effects: seq![Effect::ListWallets(chat_id)] }
    } else if command == "snipe"@ {
        tell(with_wizard(chats, chat_id, no_answers()), chat_id, ASK_COLLECTION@)
    } else if command == "cancel"@ {
        tell(without_wizard(chats, chat_id), chat_id, "Wizard cancelled."@)
    } else if command == "status"@ {
        tell(
            chats,
            chat_id,
            "🟢 active snipe(s) in flight: "@ + decimal(running(chats, chat_id) as nat)
                + "\n🔴 idle"@,
        )
    } else {
        tell(chats, chat_id, "Unknown command — /help"@)
    }
}

/// What a text comes to: a command behind a slash, and anything else is an answer.
pub open spec fn text_turn(
    chats: Chats,
    chat_id: i64,
    text: Seq<char>,
    wallets_file: Seq<char>,
    rpc_urls: Seq<Seq<char>>,
) -> Turn {
    match without_prefix(trimmed(text), "/"@) {
        Some(rest) => command_turn(chats, chat_id, first_word(rest)),
        None => advance_turn(chats, chat_id, trimmed(text), wallets_file, rpc_urls),
    }
}

/// The chats after a chain was chosen: only a wizard that waits for it takes it.
pub open spec fn with_chain(chats: Chats, chat_id: i64, chain: Seq<char>) -> Chats {
    if chats.wizards.contains_key(chat_id) && chats.wizards[chat_id].step == Step::Chain {
        with_wizard(
            chats,
            chat_id,
            (Answers { chain: Some(chain), step: Step::Quantity, ..chats.wizards[chat_id] }),
        )
    } else {
        chats
    }
}

/// What firing comes to: the snipe of the chat's wizard runs and is counted. Without a wizard, or
/// with one that has no chain yet, nothing happens.
pub open spec fn fire_turn(
    chats: Chats,
    chat_id: i64,
    wallets_file: Seq<char>,
    rpc_urls: Seq<Seq<char>>,
) -> Turn {
    if chats.wizards.contains_key(chat_id) {
        match chats.wizards[chat_id].chain {
            Some(chain) => Turn {
                chats: one_more(chats, chat_id),
                effects: seq![
                    Effect::Send(chat_id, ARMING@),
                    Effect::Fire(
                        chat_id,
                        snipe_of(chats.wizards[chat_id], chain, wallets_file, rpc_urls),
                    ),
                ],
            },
            None => no_turn(chats),
        }
    } else {
        no_turn(chats)
    }
}

/// Does the chat have a wizard with a chain, so that there is a snipe to run?
pub open spec fn has_snipe(chats: Chats, chat_id: i64) -> bool {
    chats.wizards.contains_key(chat_id) && chats.wizards[chat_id].chain is Some
}

/// Does the wizard of the chat wait for the last answer?
pub open spec fn at_confirm(chats: Chats, chat_id: i64) -> bool {
    chats.wizards.contains_key(chat_id) && chats.wizards[chat_id].step == Step::Confirm
}

/// Does the FIRE button run anything: does it answer the last question of a wizard with a chain?
pub open spec fn can_fire(chats: Chats, chat_id: i64) -> bool {
    at_confirm(chats, chat_id) && has_snipe(chats, chat_id)
}

/// What pressing FIRE comes to: it fires where the wizard waits for that, and ends the wizard in any
/// case.
pub open spec fn fire_button_turn(
    chats: Chats,
    chat_id: i64,
    wallets_file: Seq<char>,
    rpc_urls: Seq<Seq<char>>,
) -> Turn {
    let turn = if at_confirm(chats, chat_id) {
        fire_turn(chats, chat_id, wallets_file, rpc_urls)
    } else {
        no_turn(chats)
    };
    Turn { chats: without_wizard(turn.chats, chat_id), effects: turn.effects }
}

/// What pressing a button comes to.
pub open spec fn callback_turn(
    chats: Chats,
    chat_id: i64,
    data: Seq<char>,
    wallets_file: Seq<char>,
    rpc_urls: Seq<Seq<char>>,
) -> Turn {
    match without_prefix(data, "chain:"@) {
        Some(chain) => tell(with_chain(chats, chat_id, chain), chat_id, ASK_QUANTITY@),
        None => if data == "fire:yes"@ {
            fire_button_turn(chats, chat_id, wallets_file, rpc_urls)
        } else if data == "fire:no"@ {
            tell(
                without_wizard(chats, chat_id),
                chat_id,
                "Cancelled — nothing was signed or broadcast."@,
            )
        } else {
            no_turn(chats)
        },
    }
}

/// What an uploaded file comes to: only a JSON file is fetched.
pub open spec fn document_effects(chat_id: i64, message: Json) -> Seq<Effect> {
    match message.member("document"@) {
        Some(document) => if finishes_with(
            lowered(or_empty(string_member(Some(document), "file_name"@))),
            ".json"@,
        ) {
            seq![
                Effect::FetchFile(chat_id, or_empty(string_member(Some(document), "file_id"@))),
            ]
        } else {
            seq![
                Effect::Send(
                    chat_id,
                    "📎 Send a wallets.json file (keys are never read back to chat)."@,
                ),
            ]
        },
        None => Seq::empty(),
    }
}

/// The chat of a message; nobody's where it names none.
pub open spec fn chat_of(message: Option<Json>) -> i64 {
    match message {
        Some(m) => match m.member("chat"@) {
            Some(chat) => match chat.member("id"@) {
                Some(id) => match id.whole() {
                    Some(n) => n,
                    None => 0,
                },
                None => 0,
            },
            None => 0,
        },
        None => 0,
    }
}

/// What a message of a chat that may talk comes to.
pub open spec fn message_turn(
    chats: Chats,
    chat_id: i64,
    message: Json,
    wallets_file: Seq<char>,
    rpc_urls: Seq<Seq<char>>,
) -> Turn {
    match string_member(Some(message), "text"@) {
        Some(text) => text_turn(chats, chat_id, text, wallets_file, rpc_urls),
        None => Turn { chats, effects: document_effects(chat_id, message) },
    }
}

/// What an update comes to. The press of a button is acknowledged whoever pressed it; apart from
/// that, only chats that may talk are heard.
pub open spec fn update_turn(
    allowed: Seq<i64>,
    chats: Chats,
    update: Json,
    wallets_file: Seq<char>,
    rpc_urls: Seq<Seq<char>>,
) -> Turn {
    match update.member("callback_query"@) {
        Some(callback) => {
            let chat_id = chat_of(callback.member("message"@));
            let answer = Effect::AnswerCallback(or_empty(string_member(Some(callback), "id"@)));
            let data = or_empty(string_member(Some(callback), "data"@));
            if allowed.contains(chat_id) {
                let turn = callback_turn(chats, chat_id, data, wallets_file, rpc_urls);
                Turn { chats: turn.chats, effects: seq![answer] + turn.effects }
            } else {
                Turn { chats, effects: seq![answer] }
            }
        },
        None => match update.member("message"@) {
            Some(message) => {
                let chat_id = chat_of(Some(message));
                if allowed.contains(chat_id) {
                    message_turn(chats, chat_id, message, wallets_file, rpc_urls)
                } else {
                    Turn { chats, effects: seq![Effect::NoteStranger(chat_id)] }
                }
            },
            None => no_turn(chats),
        },
    }
}

/// Replacing a wizard replaces its answers.
proof fn lemma_put_wizard(wizards: Map<i64, Wizard>, chat_id: i64, wizard: Wizard)
    ensures
        wizard_values(wizards.insert(chat_id, wizard)) == wizard_values(wizards).insert(
            chat_id,
            wizard@,
        ),
        wizard_values(wizards.remove(chat_id).insert(chat_id, wizard)) == wizard_values(
            wizards,
        ).insert(chat_id, wizard@),
{
    assert(wizard_values(wizards.insert(chat_id, wizard)) =~= wizard_values(wizards).insert(
        chat_id,
        wizard@,
    ));
    assert(wizards.remove(chat_id).insert(chat_id, wizard) =~= wizards.insert(chat_id, wizard));
}

/// Removing a wizard removes its answers.
proof fn lemma_drop_wizard(wizards: Map<i64, Wizard>, chat_id: i64)
    ensures
        wizard_values(wizards.remove(chat_id)) == wizard_values(wizards).remove(chat_id),
{
    assert(wizard_values(wizards.remove(chat_id)) =~= wizard_values(wizards).remove(chat_id));
}

impl Bot {
    /// Is `turn` what happened between `before` and `after`?
    pub open spec fn took(before: Bot, after: Bot, actions: Seq<BotAction>, turn: Turn) -> bool {
        &&& after.allowed == before.allowed
        &&& after.wallets_file == before.wallets_file
        &&& after.chats() == turn.chats
        &&& effects(actions) == turn.effects
    }

    /// Takes the answer to a wizard's question.
    pub fn advance_wizard(&mut self, chat_id: i64, text: &str, rpc_urls: &Vec<String>) -> (actions:
        Vec<BotAction>)
        ensures
            Bot::took(
                *old(self),
                *final(self),
                actions@,
                advance_turn(
                    old(self).chats(),
                    chat_id,
                    text@,
                    old(self).wallets_file@,
                    contents(rpc_urls@),
                ),
            ),
    {
        match self.wizards.remove(&chat_id) {
            Some(wizard) => {
                let (next, action) = take_answer(
                    wizard,
                    chat_id,
                    text,
                    self.wallets_file.as_str(),
                    rpc_urls,
                );
                self.wizards.insert(chat_id, next);
                proof {
                    lemma_put_wizard(old(self).wizards@, chat_id, next);
                }
                only(action)
            },
            None => {
                proof {
                    assert(old(self).wizards@.remove(chat_id) =~= old(self).wizards@);
                }
                only(message(chat_id, "No wizard active — send /snipe to start one."))
            },
        }
    }

    /// How many snipes of a chat are running.
    pub fn active_count(&self, chat_id: i64) -> (count: usize)
        ensures
            count == running(self.chats(), chat_id),
    {
        match self.active.get(&chat_id) {
            Some(count) => *count,
            None => 0,
        }
    }

    /// Obeys a command.
    pub fn handle_command(&mut self, chat_id: i64, command: &str) -> (actions: Vec<BotAction>)
        ensures
            Bot::took(
                *old(self),
                *final(self),
                actions@,
                command_turn(old(self).chats(), chat_id, command@),
            ),
    {
        if same(command, "start") || same(command, "help") {
            return only(message(chat_id, HELP));
        }
        if same(command, "wallets") {
            return only(BotAction::ListWallets { chat_id });
        }
        if same(command, "snipe") {
            let wizard = Wizard::new();
            self.wizards.insert(chat_id, wizard);
            proof {
                lemma_put_wizard(old(self).wizards@, chat_id, wizard);
            }
            return only(message(chat_id, ASK_COLLECTION));
        }
        if same(command, "cancel") {
            self.wizards.remove(&chat_id);
            proof {
                lemma_drop_wizard(old(self).wizards@, chat_id);
            }
            return only(message(chat_id, "Wizard cancelled."));
        }
        if same(command, "status") {
            let mut text = prefixed(
                "🟢 active snipe(s) in flight: ",
                to_decimal(self.active_count(chat_id) as u128).as_str(),
            );
            text.append("\n🔴 idle");
            return only(message(chat_id, text.as_str()));
        }
        only(message(chat_id, "Unknown command — /help"))
    }

    /// Takes a text: a command behind a slash, and anything else is an answer.
    pub fn handle_text(&mut self, chat_id: i64, text: &str, rpc_urls: &Vec<String>) -> (actions: Vec<
        BotAction,
    >)
        ensures
            Bot::took(
                *old(self),
                *final(self),
                actions@,
                text_turn(
                    old(self).chats(),
                    chat_id,
                    text@,
                    old(self).wallets_file@,
                    contents(rpc_urls@),
                ),
            ),
    {
        let said = trim(text);
        match strip_prefix(said, "/") {
            Some(rest) => {
                let command = take_word(rest);
                self.handle_command(chat_id, command.as_str())
            },
            None => self.advance_wizard(chat_id, said, rpc_urls),
        }
    }

    /// Takes the choice of a chain.
    fn choose_chain(&mut self, chat_id: i64, chain: &str)
        ensures
            final(self).allowed == old(self).allowed,
            final(self).wallets_file == old(self).wallets_file,
            final(self).chats() == with_chain(old(self).chats(), chat_id, chain@),
    {
        match self.wizards.remove(&chat_id) {
            Some(wizard) => {
                let mut wizard = wizard;
                if wizard.step == Step::Chain {
                    wizard.chain = Some(chain.to_owned());
                    wizard.step = Step::Quantity;
                }
                self.wizards.insert(chat_id, wizard);
                proof {
                    lemma_put_wizard(old(self).wizards@, chat_id, wizard);
                    let before = old(self).chats();
                    assert(before.wizards.insert(chat_id, before.wizards[chat_id]) =~= before.wizards);
                }
            },
            None => {
                proof {
                    assert(old(self).wizards@.remove(chat_id) =~= old(self).wizards@);
                }
            },
        }
    }

    /// Fires the snipe that the wizard of a chat has put together.
    pub fn fire_snipe(&mut self, chat_id: i64, rpc_urls: &Vec<String>) -> (actions: Vec<BotAction>)
        requires
            has_snipe(old(self).chats(), chat_id) ==> running(old(self).chats(), chat_id)
                < usize::MAX,
        ensures
            Bot::took(
                *old(self),
                *final(self),
                actions@,
                fire_turn(
                    old(self).chats(),
                    chat_id,
                    old(self).wallets_file@,
                    contents(rpc_urls@),
                ),
            ),
    {
        match self.wizards.get(&chat_id) {
            Some(wizard) => match &wizard.chain {
                Some(chain) => {
                    let options = snipe_options(
                        wizard,
                        chain.as_str(),
                        self.wallets_file.as_str(),
                        rpc_urls,
                    );
                    let count: usize = self.active_count(chat_id);
                    self.active.insert(chat_id, count + 1);
                    both(message(chat_id, ARMING), BotAction::Fire { chat_id, options })
                },
                None => nothing(),
            },
            None => nothing(),
        }
    }

    /// Takes the press of a button.
    pub fn handle_callback(&mut self, chat_id: i64, data: &str, rpc_urls: &Vec<String>) -> (actions:
        Vec<BotAction>)
        requires
            data@ == "fire:yes"@ && can_fire(old(self).chats(), chat_id) ==> running(
                old(self).chats(),
                chat_id,
            ) < usize::MAX,
        ensures
            Bot::took(
                *old(self),
                *final(self),
                actions@,
                callback_turn(
                    old(self).chats(),
                    chat_id,
                    data@,
                    old(self).wallets_file@,
                    contents(rpc_urls@),
                ),
            ),
    {
        if let Some(chain) = strip_prefix(data, "chain:") {
            self.choose_chain(chat_id, chain);
            return only(message(chat_id, ASK_QUANTITY));
        }
        if same(data, "fire:yes") {
            let confirming = match self.wizards.get(&chat_id) {
                Some(wizard) => wizard.step == Step::Confirm,
                None => false,
            };
            let actions = if confirming {
                self.fire_snipe(chat_id, rpc_urls)
            } else {
                nothing()
            };
            proof {
                lemma_drop_wizard(self.wizards@, chat_id);
            }
            self.wizards.remove(&chat_id);
            return actions;
        }
        if same(data, "fire:no") {
            self.wizards.remove(&chat_id);
            proof {
                lemma_drop_wizard(old(self).wizards@, chat_id);
            }
            return only(message(chat_id, "Cancelled — nothing was signed or broadcast."));
        }
        nothing()
    }

    /// Takes an uploaded file.
    pub fn handle_document(&self, chat_id: i64, message_json: &Json) -> (actions: Vec<BotAction>)
        ensures
            effects(actions@) == document_effects(chat_id, *message_json),
    {
        match message_json.get("document") {
            Some(document) => {
                proof {
                    reveal_strlit("");
                    assert(""@ == Seq::<char>::empty());
                }
                let file_name = match text_member(document, "file_name") {
                    Some(name) => name,
                    None => "",
                };
                let file_id = match text_member(document, "file_id") {
                    Some(id) => id,
                    None => "",
                };
                let lower = to_ascii_lowercase(file_name);
                if !crate::text::ends_with(lower.as_str(), ".json") {
                    return only(
                        message(
                            chat_id,
                            "📎 Send a wallets.json file (keys are never read back to chat).",
                        ),
                    );
                }
                only(BotAction::FetchFile { chat_id, file_id: file_id.to_owned() })
            },
            None => nothing(),
        }
    }

    /// Takes an update.
    pub fn handle_update(&mut self, update: &Json, rpc_urls: &Vec<String>) -> (actions: Vec<
        BotAction,
    >)
        requires
            old(self).has_room_for(*update),
        ensures
            Bot::took(
                *old(self),
                *final(self),
                actions@,
                update_turn(
                    old(self).allowed@,
                    old(self).chats(),
                    *update,
                    old(self).wallets_file@,
                    contents(rpc_urls@),
                ),
            ),
    {
        if let Some(callback) = update.get("callback_query") {
            proof {
                reveal_strlit("fire:yes");
                reveal_strlit("");
                assert(""@ == Seq::<char>::empty());
            }
            let chat_id: i64 = read_chat(callback.get("message"));
            let callback_id = match text_member(callback, "id") {
                Some(id) => id,
                None => "",
            };
            let data = match text_member(callback, "data") {
                Some(data) => data,
                None => "",
            };
            let mut actions = only(
                BotAction::AnswerCallback { callback_id: callback_id.to_owned() },
            );
            if self.is_allowed(chat_id) {
                let mut more = self.handle_callback(chat_id, data, rpc_urls);
                let ghost first = actions@;
                let ghost rest = more@;
                actions.append(&mut more);
                assert(effects(first + rest) == effects(first) + effects(rest));
            }
            return actions;
        }
        let message_json = match update.get("message") {
            Some(m) => m,
            None => {
                return nothing();
            },
        };
        let chat_id: i64 = read_chat(Some(message_json));
        if !self.is_allowed(chat_id) {
            return only(BotAction::NoteStranger { chat_id });
        }
        if let Some(text) = text_member(message_json, "text") {
            return self.handle_text(chat_id, text, rpc_urls);
        }
        self.handle_document(chat_id, message_json)
    }
}

/// Finds the chat of a message.
fn read_chat(message_json: Option<&Json>) -> (chat_id: i64)
    ensures
        chat_id == chat_of(
            match message_json {
                Some(m) => Some(*m),
                None => None,
            },
        ),
{
    match message_json {
        Some(m) => match m.get("chat") {
            Some(chat) => match chat.get("id") {
                Some(id) => match id.as_i64() {
                    Some(n) => n,
                    None => 0,
                },
                None => 0,
            },
            None => 0,
        },
        None => 0,
    }
}

/// What a chat is told at the end of a snipe: nothing, unless it failed.
pub open spec fn farewell(chat_id: i64, result: Result<(), SnipeError>) -> Seq<Effect> {
    match result {
        Ok(_) => Seq::empty(),
        Err(error) => seq![Effect::Send(chat_id, "❌ "@ + error.spec_message())],
    }
}

impl Bot {
    /// Ends a snipe of a chat: it is no longer counted, and the chat is told what went wrong.
    pub fn finish_snipe(&mut self, chat_id: i64, result: Result<(), SnipeError>) -> (actions: Vec<
        BotAction,
    >)
        ensures
            final(self).allowed == old(self).allowed,
            final(self).wallets_file == old(self).wallets_file,
            final(self).chats() == one_less(old(self).chats(), chat_id),
            effects(actions@) == farewell(chat_id, result),
    {
        match self.active.remove(&chat_id) {
            Some(count) => {
                if count > 1 {
                    self.active.insert(chat_id, count - 1);
                    proof {
                        assert(old(self).active@.remove(chat_id).insert(
                            chat_id,
                            (count - 1) as usize,
                        ) =~= old(self).active@.insert(chat_id, (count - 1) as usize));
                    }
                }
            },
            None => {},
        }
        match result {
            Ok(_) => nothing(),
            Err(error) => only(
                message(chat_id, prefixed("❌ ", error.message().as_str()).as_str()),
            ),
        }
    }

    /// Can what an update does be counted? Only one more snipe of a chat that runs as many as can be
    /// counted cannot.
    pub open spec fn has_room_for(self, update: Json) -> bool {
        let chat_id = update_chat(update);
        self.allows(chat_id) && presses_fire(update) && can_fire(self.chats(), chat_id) ==> running(
            self.chats(),
            chat_id,
        ) < usize::MAX
    }

    /// Tells whether what an update does can be counted.
    pub fn can_take(&self, update: &Json) -> (yes: bool)
        ensures
            yes == self.has_room_for(*update),
    {
        let chat_id: i64 = sender(update);
        let pressed = match update.get("callback_query") {
            Some(callback) => match text_member(callback, "data") {
                Some(data) => same(data, "fire:yes"),
                None => false,
            },
            None => false,
        };
        let fires = match self.wizards.get(&chat_id) {
            Some(wizard) => wizard.step == Step::Confirm && wizard.chain.is_some(),
            None => false,
        };
        !(self.is_allowed(chat_id) && pressed && fires) || self.active_count(chat_id) < usize::MAX
    }
}

/// Is every counted chat running something?
pub open spec fn counts_are_positive(chats: Chats) -> bool {
    forall|chat: i64| #[trigger] chats.active.contains_key(chat) ==> chats.active[chat] > 0
}

/// The chat that an update comes from.
pub open spec fn update_chat(update: Json) -> i64 {
    match update.member("callback_query"@) {
        Some(callback) => chat_of(callback.member("message"@)),
        None => chat_of(update.member("message"@)),
    }
}

/// Is the update the press of FIRE?
pub open spec fn presses_fire(update: Json) -> bool {
    string_member(update.member("callback_query"@), "data"@) == Some("fire:yes"@)
}

/// Finds the chat that an update comes from.
pub fn sender(update: &Json) -> (chat_id: i64)
    ensures
        chat_id == update_chat(*update),
{
    match update.get("callback_query") {
        Some(callback) => read_chat(callback.get("message")),
        None => read_chat(update.get("message")),
    }
}

/// Owner-only: whatever a chat sends that may not talk to the bot, no wizard and no count changes,
/// and nothing is sent to, fetched or run for any chat.
pub proof fn law_strangers_change_nothing(
    allowed: Seq<i64>,
    chats: Chats,
    update: Json,
    wallets_file: Seq<char>,
    rpc_urls: Seq<Seq<char>>,
)
    requires
        !allowed.contains(update_chat(update)),
    ensures
        update_turn(allowed, chats, update, wallets_file, rpc_urls).chats == chats,
        forall|i: int, chat: i64|
            0 <= i < update_turn(allowed, chats, update, wallets_file, rpc_urls).effects.len()
                ==> !(#[trigger] reaches(
                update_turn(allowed, chats, update, wallets_file, rpc_urls).effects[i],
                chat,
            )),
{
}

/// An update of one chat leaves the wizards and the counts of all others alone, and nothing is done
/// for them.
pub proof fn law_chats_are_separate(
    allowed: Seq<i64>,
    chats: Chats,
    update: Json,
    wallets_file: Seq<char>,
    rpc_urls: Seq<Seq<char>>,
    other: i64,
)
    requires
        other != update_chat(update),
    ensures
        ({
            let turn = update_turn(allowed, chats, update, wallets_file, rpc_urls);
            &&& turn.chats.wizards.contains_key(other) == chats.wizards.contains_key(other)
            &&& chats.wizards.contains_key(other) ==> turn.chats.wizards[other]
                == chats.wizards[other]
            &&& running(turn.chats, other) == running(chats, other)
            &&& forall|i: int|
                0 <= i < turn.effects.len() ==> !reaches(#[trigger] turn.effects[i], other)
        }),
{
}

/// A snipe runs only where an allowed chat presses FIRE while its wizard waits for that and has a
/// chain; nothing that is typed, and no other button, runs one. What runs is what the wizard asked
/// for.
pub proof fn law_only_fire_button_fires(
    allowed: Seq<i64>,
    chats: Chats,
    update: Json,
    wallets_file: Seq<char>,
    rpc_urls: Seq<Seq<char>>,
    i: int,
)
    requires
        0 <= i < update_turn(allowed, chats, update, wallets_file, rpc_urls).effects.len(),
        update_turn(allowed, chats, update, wallets_file, rpc_urls).effects[i] is Fire,
    ensures
        ({
            let chat_id = update_chat(update);
            &&& allowed.contains(chat_id)
            &&& presses_fire(update)
            &&& can_fire(chats, chat_id)
            &&& update_turn(allowed, chats, update, wallets_file, rpc_urls).effects[i]
                == Effect::Fire(
                chat_id,
                snipe_of(
                    chats.wizards[chat_id],
                    chats.wizards[chat_id].chain->0,
                    wallets_file,
                    rpc_urls,
                ),
            )
        }),
{
    reveal_strlit("fire:yes");
    reveal_strlit("");
}

/// The wallets of a snipe come from the wallets file alone: no chat brings a key of its own.
pub proof fn law_chats_bring_no_keys(
    allowed: Seq<i64>,
    chats: Chats,
    update: Json,
    wallets_file: Seq<char>,
    rpc_urls: Seq<Seq<char>>,
    i: int,
)
    requires
        0 <= i < update_turn(allowed, chats, update, wallets_file, rpc_urls).effects.len(),
    ensures
        match update_turn(allowed, chats, update, wallets_file, rpc_urls).effects[i] {
            Effect::Preview(_, _, options) => options.key_count == 0 && options.wallets_file == Some(
                wallets_file,
            ),
            Effect::Fire(_, options) => options.key_count == 0 && options.wallets_file == Some(
                wallets_file,
            ),
            _ => true,
        },
{
}

/// A wizard's place among the questions.
pub open spec fn place(step: Step) -> int {
    match step {
        Step::Collection => 0,
        Step::Chain => 1,
        Step::Quantity => 2,
        Step::Wallets => 3,
        Step::Gas => 4,
        Step::Early => 5,
        Step::Confirm => 6,
    }
}

/// An answer brings a wizard to the next question or leaves it where it is, with all answers as they
/// were.
pub proof fn law_wizard_goes_step_by_step(answers: Answers, text: Seq<char>)
    ensures
        place(next_answers(answers, text).step) == place(answers.step) + 1 || next_answers(
            answers,
            text,
        ) == answers,
{
}

/// Starting a snipe and ending it leaves the counts as they were.
pub proof fn law_count_returns(chats: Chats, chat_id: i64)
    requires
        counts_are_positive(chats),
        running(chats, chat_id) < usize::MAX,
    ensures
        one_less(one_more(chats, chat_id), chat_id).active == chats.active,
        one_less(one_more(chats, chat_id), chat_id).wizards == chats.wizards,
{
    assert(one_less(one_more(chats, chat_id), chat_id).active =~= chats.active);
}

/// A chat that is counted is always running something.
pub proof fn law_counts_stay_positive(
    allowed: Seq<i64>,
    chats: Chats,
    update: Json,
    wallets_file: Seq<char>,
    rpc_urls: Seq<Seq<char>>,
    ended: i64,
)
    requires
        counts_are_positive(chats),
        allowed.contains(update_chat(update)) && presses_fire(update) && can_fire(
            chats,
            update_chat(update),
        ) ==> running(chats, update_chat(update)) < usize::MAX,
    ensures
        counts_are_positive(update_turn(allowed, chats, update, wallets_file, rpc_urls).chats),
        counts_are_positive(one_less(chats, ended)),
{
    reveal_strlit("fire:yes");
}

/// Is the update a press of the button with that data, in that chat?
pub open spec fn presses(update: Json, chat_id: i64, data: Seq<char>) -> bool {
    &&& update_chat(update) == chat_id
    &&& string_member(update.member("callback_query"@), "data"@) == Some(data)
}

/// Is the update that text, typed in that chat?
pub open spec fn types(update: Json, chat_id: i64, text: Seq<char>) -> bool {
    &&& update_chat(update) == chat_id
    &&& update.member("callback_query"@) is None
    &&& string_member(update.member("message"@), "text"@) == Some(text)
}

/// The chat of an update is the number that its message gives for it, behind a button as well.
pub proof fn law_chat_is_read(update: Json, message: Json, chat: Json, n: i64)
    requires
        message.member("chat"@) == Some(chat),
        chat.member("id"@) == Some(Json::Int(n)),
    ensures
        update.member("callback_query"@) is None && update.member("message"@) == Some(message)
            ==> update_chat(update) == n,
        update.member("callback_query"@) matches Some(callback) ==> (callback.member("message"@)
            == Some(message) ==> update_chat(update) == n),
{
}

/// The button of a chain answers the question for the chain: whatever its name, it is the answer,
/// the question for the quantity comes next, and all other answers stay as they are.
pub proof fn law_chain_button_chooses(
    allowed: Seq<i64>,
    chats: Chats,
    update: Json,
    wallets_file: Seq<char>,
    rpc_urls: Seq<Seq<char>>,
    chat_id: i64,
    chain: Seq<char>,
)
    requires
        allowed.contains(chat_id),
        chats.wizards.contains_key(chat_id),
        chats.wizards[chat_id].step == Step::Chain,
        presses(update, chat_id, "chain:"@ + chain),
    ensures
        ({
            let turn = update_turn(allowed, chats, update, wallets_file, rpc_urls);
            let before = chats.wizards[chat_id];
            let after = turn.chats.wizards[chat_id];
            &&& turn.chats.wizards.contains_key(chat_id)
            &&& after.chain == Some(chain)
            &&& after.step == Step::Quantity
            &&& after.collection == before.collection
            &&& after.quantity == before.quantity
            &&& after.wallets == before.wallets
            &&& after.max_fee == before.max_fee
            &&& after.priority_fee == before.priority_fee
            &&& after.early_fire_ms == before.early_fire_ms
            &&& turn.chats.active == chats.active
            &&& turn.effects.len() == 2
            &&& turn.effects[0] is AnswerCallback
            &&& turn.effects[1] == Effect::Send(chat_id, ASK_QUANTITY@)
        }),
{
    law_prefix_comes_off("chain:"@, chain, "chain:"@ + chain);
}

/// The button of a chain changes nothing where the wizard asks something else, or where there is
/// none.
pub proof fn law_chain_button_waits_its_turn(
    allowed: Seq<i64>,
    chats: Chats,
    update: Json,
    wallets_file: Seq<char>,
    rpc_urls: Seq<Seq<char>>,
    chat_id: i64,
    chain: Seq<char>,
)
    requires
        allowed.contains(chat_id),
        !(chats.wizards.contains_key(chat_id) && chats.wizards[chat_id].step == Step::Chain),
        presses(update, chat_id, "chain:"@ + chain),
    ensures
        update_turn(allowed, chats, update, wallets_file, rpc_urls).chats == chats,
{
    law_prefix_comes_off("chain:"@, chain, "chain:"@ + chain);
}

/// FIRE, pressed where the wizard waits for it, runs one snipe, counts it, and ends the wizard. What
/// runs is, field by field, what was answered.
pub proof fn law_fire_runs_what_was_answered(
    allowed: Seq<i64>,
    chats: Chats,
    update: Json,
    wallets_file: Seq<char>,
    rpc_urls: Seq<Seq<char>>,
    chat_id: i64,
    chain: Seq<char>,
)
    requires
        allowed.contains(chat_id),
        chats.wizards.contains_key(chat_id),
        chats.wizards[chat_id].step == Step::Confirm,
        chats.wizards[chat_id].chain == Some(chain),
        running(chats, chat_id) < usize::MAX,
        presses(update, chat_id, "fire:yes"@),
    ensures
        ({
            let turn = update_turn(allowed, chats, update, wallets_file, rpc_urls);
            let answers = chats.wizards[chat_id];
            &&& !turn.chats.wizards.contains_key(chat_id)
            &&& turn.chats.active.contains_key(chat_id)
            &&& turn.chats.active[chat_id] == running(chats, chat_id) + 1
            &&& turn.effects.len() == 3
            &&& turn.effects[0] is AnswerCallback
            &&& turn.effects[1] == Effect::Send(chat_id, ARMING@)
            &&& turn.effects[2] matches Effect::Fire(chat, options) && {
                &&& chat == chat_id
                &&& options.collection == answers.collection
                &&& options.quantity == Some(answers.quantity)
                &&& options.chain == Some(chain)
                &&& options.wallet_indices == answers.wallets
                &&& options.max_fee == answers.max_fee
                &&& options.priority_fee == answers.priority_fee
                &&& options.early_fire_ms == answers.early_fire_ms
                &&& options.wallets_file == Some(wallets_file)
                &&& options.rpc_urls == rpc_urls
                &&& options.key_count == 0
                &&& options.gas_limit == 250_000
                &&& !options.fire_now
            }
        }),
{
    lemma_fire_data();
}

/// FIRE, pressed at any other moment, ends the wizard and runs nothing.
pub proof fn law_fire_waits_for_confirm(
    allowed: Seq<i64>,
    chats: Chats,
    update: Json,
    wallets_file: Seq<char>,
    rpc_urls: Seq<Seq<char>>,
    chat_id: i64,
)
    requires
        allowed.contains(chat_id),
        chats.wizards.contains_key(chat_id) ==> chats.wizards[chat_id].step != Step::Confirm
            || chats.wizards[chat_id].chain is None,
        presses(update, chat_id, "fire:yes"@),
    ensures
        ({
            let turn = update_turn(allowed, chats, update, wallets_file, rpc_urls);
            &&& turn.chats.active == chats.active
            &&& !turn.chats.wizards.contains_key(chat_id)
            &&& turn.effects.len() == 1
            &&& turn.effects[0] is AnswerCallback
        }),
{
    lemma_fire_data();
}

/// The data of the two last buttons are no chains.
proof fn lemma_fire_data()
    ensures
        without_prefix("fire:yes"@, "chain:"@) is None,
        without_prefix("fire:no"@, "chain:"@) is None,
        "fire:yes"@ != "fire:no"@,
{
    reveal_strlit("fire:yes");
    reveal_strlit("fire:no");
    reveal_strlit("chain:");
    assert("chain:"@[0] == 'c');
    assert("fire:no"@.subrange(0, 6)[0] == 'f');
    assert("fire:yes"@.subrange(0, 6)[0] == 'f');
    assert("fire:no"@.len() == 7);
    assert("fire:yes"@.len() == 8);
}

/// CANCEL ends the wizard, counts nothing and runs nothing; and the press of any button that the bot
/// did not offer changes nothing.
pub proof fn law_other_buttons_run_nothing(
    allowed: Seq<i64>,
    chats: Chats,
    update: Json,
    wallets_file: Seq<char>,
    rpc_urls: Seq<Seq<char>>,
    chat_id: i64,
    data: Seq<char>,
)
    requires
        allowed.contains(chat_id),
        presses(update, chat_id, data),
    ensures
        ({
            let turn = update_turn(allowed, chats, update, wallets_file, rpc_urls);
            &&& data == "fire:no"@ ==> {
                &&& turn.chats.wizards == chats.wizards.remove(chat_id)
                &&& turn.chats.active == chats.active
                &&& turn.effects.len() == 2
                &&& turn.effects[0] is AnswerCallback
                &&& turn.effects[1] == Effect::Send(
                    chat_id,
                    "Cancelled — nothing was signed or broadcast."@,
                )
            }
            &&& data != "fire:yes"@ && data != "fire:no"@ && without_prefix(data, "chain:"@) is None
                ==> turn.chats == chats && turn.effects.len() == 1
        }),
{
    lemma_fire_data();
}

/// Every press is acknowledged first, under the identity that it came with, whoever pressed.
pub proof fn law_presses_are_acknowledged(
    allowed: Seq<i64>,
    chats: Chats,
    update: Json,
    wallets_file: Seq<char>,
    rpc_urls: Seq<Seq<char>>,
    callback_id: Seq<char>,
)
    requires
        string_member(update.member("callback_query"@), "id"@) == Some(callback_id),
    ensures
        ({
            let turn = update_turn(allowed, chats, update, wallets_file, rpc_urls);
            &&& turn.effects.len() > 0
            &&& turn.effects[0] == Effect::AnswerCallback(callback_id)
        }),
{
}

/// What a command does, whatever white space or words follow it: `/snipe` begins anew, `/cancel`
/// ends the wizard, `/status` tells how many snipes run, and the others change nothing.
pub proof fn law_commands(
    allowed: Seq<i64>,
    chats: Chats,
    update: Json,
    wallets_file: Seq<char>,
    rpc_urls: Seq<Seq<char>>,
    chat_id: i64,
    text: Seq<char>,
    command: Seq<char>,
    rest: Seq<char>,
)
    requires
        allowed.contains(chat_id),
        types(update, chat_id, text),
        trimmed(text) == "/"@ + command + rest,
        command.len() > 0,
        forall|i: int| 0 <= i < command.len() ==> !is_white(#[trigger] command[i]),
        rest.len() > 0 ==> is_white(rest[0]),
    ensures
        ({
            let turn = update_turn(allowed, chats, update, wallets_file, rpc_urls);
            &&& turn.effects.len() == 1
            &&& turn.chats.active == chats.active
            &&& command == "snipe"@ ==> {
                &&& turn.chats.wizards == chats.wizards.insert(
                    chat_id,
                    (Answers {
                        step: Step::Collection,
                        collection: ""@,
                        chain: None,
                        quantity: 1,
                        wallets: None,
                        max_fee: None,
                        priority_fee: None,
                        early_fire_ms: 0,
                    }),
                )
                &&& turn.effects[0] == Effect::Send(chat_id, ASK_COLLECTION@)
            }
            &&& command == "cancel"@ ==> {
                &&& turn.chats.wizards == chats.wizards.remove(chat_id)
                &&& turn.effects[0] == Effect::Send(chat_id, "Wizard cancelled."@)
            }
            &&& command != "snipe"@ && command != "cancel"@ ==> turn.chats == chats
            &&& command == "status"@ ==> turn.effects[0] == Effect::Send(
                chat_id,
                "🟢 active snipe(s) in flight: "@ + decimal(running(chats, chat_id) as nat)
                    + "\n🔴 idle"@,
            )
            &&& command == "wallets"@ ==> turn.effects[0] == Effect::ListWallets(chat_id)
            &&& command == "start"@ || command == "help"@ ==> turn.effects[0] == Effect::Send(
                chat_id,
                HELP@,
            )
            &&& command != "snipe"@ && command != "cancel"@ && command != "status"@ && command
                != "wallets"@ && command != "start"@ && command != "help"@ ==> turn.effects[0]
                == Effect::Send(chat_id, "Unknown command — /help"@)
        }),
{
    reveal_strlit("/");
    reveal_strlit("start");
    reveal_strlit("help");
    reveal_strlit("wallets");
    reveal_strlit("snipe");
    reveal_strlit("cancel");
    reveal_strlit("status");
    assert("snipe"@[1] == 'n');
    assert("start"@[1] == 't');
    assert("status"@.len() == 6);
    assert("cancel"@[0] == 'c');
    assert("status"@[0] == 's');
    assert("wallets"@.len() == 7);
    assert("help"@.len() == 4);
    let behind = command + rest;
    assert("/"@ + command + rest == "/"@ + behind);
    law_prefix_comes_off("/"@, behind, trimmed(text));
    law_first_word(Seq::empty(), command, rest);
    assert(Seq::<char>::empty() + command + rest == behind);
}

/// An answer goes to the chat's wizard, without the white space around it; the count of running
/// snipes stays, and exactly one thing is done in reply. Without a wizard nothing changes.
pub proof fn law_answers_reach_the_wizard(
    allowed: Seq<i64>,
    chats: Chats,
    update: Json,
    wallets_file: Seq<char>,
    rpc_urls: Seq<Seq<char>>,
    chat_id: i64,
    text: Seq<char>,
)
    requires
        allowed.contains(chat_id),
        types(update, chat_id, text),
        trimmed(text).len() > 0 ==> trimmed(text)[0] != '/',
    ensures
        ({
            let turn = update_turn(allowed, chats, update, wallets_file, rpc_urls);
            &&& turn.chats.active == chats.active
            &&& turn.effects.len() == 1
            &&& chats.wizards.contains_key(chat_id) ==> {
                &&& turn.chats.wizards == chats.wizards.insert(
                    chat_id,
                    next_answers(chats.wizards[chat_id], trimmed(text)),
                )
                &&& turn.effects[0] == answer_effect(
                    chats.wizards[chat_id],
                    chat_id,
                    trimmed(text),
                    wallets_file,
                    rpc_urls,
                )
            }
            &&& !chats.wizards.contains_key(chat_id) ==> {
                &&& turn.chats == chats
                &&& turn.effects[0] == Effect::Send(
                    chat_id,
                    "No wizard active — send /snipe to start one."@,
                )
            }
        }),
{
    reveal_strlit("/");
    if without_prefix(trimmed(text), "/"@) is Some {
        assert(trimmed(text).subrange(0, 1)[0] == '/');
    }
}

/// Do two sets of answers differ in nothing but the place and the named answers? The flags say which
/// answers may differ.
pub open spec fn differ_only_in(
    before: Answers,
    after: Answers,
    collection: bool,
    quantity: bool,
    wallets: bool,
    gas: bool,
    early: bool,
) -> bool {
    &&& after.chain == before.chain
    &&& collection || after.collection == before.collection
    &&& quantity || after.quantity == before.quantity
    &&& wallets || after.wallets == before.wallets
    &&& gas || after.max_fee == before.max_fee && after.priority_fee == before.priority_fee
    &&& early || after.early_fire_ms == before.early_fire_ms
}

/// Each question takes its own answer and no other: which answer a text changes is settled by the
/// question alone, and a text never chooses the chain.
pub proof fn law_questions_take_their_own_answer(answers: Answers, text: Seq<char>)
    ensures
        ({
            let after = next_answers(answers, text);
            &&& answers.step == Step::Collection ==> differ_only_in(
                answers,
                after,
                true,
                false,
                false,
                false,
                false,
            )
            &&& answers.step == Step::Quantity ==> differ_only_in(
                answers,
                after,
                false,
                true,
                false,
                false,
                false,
            )
            &&& answers.step == Step::Wallets ==> differ_only_in(
                answers,
                after,
                false,
                false,
                true,
                false,
                false,
            )
            &&& answers.step == Step::Gas ==> differ_only_in(
                answers,
                after,
                false,
                false,
                false,
                true,
                false,
            )
            &&& answers.step == Step::Early ==> differ_only_in(
                answers,
                after,
                false,
                false,
                false,
                false,
                true,
            )
            &&& answers.step == Step::Chain || answers.step == Step::Confirm ==> after == answers
        }),
{
}

/// The collection is whatever was typed, without the white space around it.
pub proof fn law_collection_is_what_was_typed(
    answers: Answers,
    chat_id: i64,
    before: Seq<char>,
    collection: Seq<char>,
    after: Seq<char>,
    wallets_file: Seq<char>,
    rpc_urls: Seq<Seq<char>>,
)
    requires
        answers.step == Step::Collection,
        forall|i: int| 0 <= i < before.len() ==> is_white(#[trigger] before[i]),
        forall|i: int| 0 <= i < after.len() ==> is_white(#[trigger] after[i]),
        collection.len() > 0 ==> !is_white(collection[0]) && !is_white(collection.last()),
    ensures
        next_answers(answers, before + collection + after).collection == collection,
        next_answers(answers, before + collection + after).step == Step::Chain,
        answer_effect(answers, chat_id, before + collection + after, wallets_file, rpc_urls)
            == Effect::SendKeyboard(
            chat_id,
            "Which chain?"@,
            seq![
                ("Base"@, "chain:base"@),
                ("Ethereum"@, "chain:ethereum"@),
                ("Robinhood"@, "chain:robinhood"@),
            ],
        ),
{
    law_trimming_keeps_the_middle(before, collection, after);
}

/// A quantity is the number that was typed, where that is positive; zero, and what is no number of
/// 64 bits, is asked for again.
pub proof fn law_quantity_is_what_was_typed(
    answers: Answers,
    chat_id: i64,
    n: nat,
    text: Seq<char>,
    wallets_file: Seq<char>,
    rpc_urls: Seq<Seq<char>>,
)
    requires
        answers.step == Step::Quantity,
    ensures
        0 < n <= u64::MAX ==> next_answers(answers, decimal(n)).quantity == n && next_answers(
            answers,
            decimal(n),
        ).step == Step::Wallets && answer_effect(
            answers,
            chat_id,
            decimal(n),
            wallets_file,
            rpc_urls,
        ) == Effect::Send(chat_id, ASK_WALLETS@),
        n == 0 || n > u64::MAX ==> next_answers(answers, decimal(n)) == answers,
        unsigned_value(text, u64::MAX as nat) is None ==> next_answers(answers, text) == answers
            && answer_effect(answers, chat_id, text, wallets_file, rpc_urls) == Effect::Send(
            chat_id,
            "Send a positive integer for quantity."@,
        ),
        next_answers(answers, text).step == Step::Wallets ==> next_answers(answers, text).quantity
            > 0,
{
    law_decimal_parses(n, u64::MAX as nat);
}

/// The wallets are those that were typed, or all of them on `all`.
pub proof fn law_wallets_are_what_was_typed(
    answers: Answers,
    chat_id: i64,
    indices: Seq<usize>,
    text: Seq<char>,
    wallets_file: Seq<char>,
    rpc_urls: Seq<Seq<char>>,
)
    requires
        answers.step == Step::Wallets,
        indices.len() > 0,
        indices.no_duplicates(),
    ensures
        next_answers(answers, selection_text(indices)).wallets == Some(indices),
        next_answers(answers, selection_text(indices)).step == Step::Gas,
        answer_effect(answers, chat_id, selection_text(indices), wallets_file, rpc_urls)
            == Effect::Send(chat_id, ASK_GAS@),
        lowered(trimmed(text)) == "all"@ ==> next_answers(answers, text).wallets == Some(
            Seq::<usize>::empty(),
        ) && next_answers(answers, text).step == Step::Gas,
{
    law_typed_indices_are_selected(indices);
}

/// The fees are those that were typed, or the chain's on `auto`.
pub proof fn law_fees_are_what_was_typed(
    answers: Answers,
    chat_id: i64,
    max_fee: nat,
    priority_fee: nat,
    text: Seq<char>,
    wallets_file: Seq<char>,
    rpc_urls: Seq<Seq<char>>,
)
    requires
        answers.step == Step::Gas,
        max_fee <= u128::MAX,
        priority_fee <= u128::MAX,
    ensures
        ({
            let typed = gwei_text(max_fee) + seq!['/'] + gwei_text(priority_fee);
            &&& next_answers(answers, typed).max_fee == Some(max_fee / 1_000_000 * 1_000_000)
            &&& next_answers(answers, typed).priority_fee == Some(
                priority_fee / 1_000_000 * 1_000_000,
            )
            &&& next_answers(answers, typed).step == Step::Early
            &&& answer_effect(answers, chat_id, typed, wallets_file, rpc_urls) == Effect::Send(
                chat_id,
                ASK_EARLY@,
            )
        }),
        lowered(trimmed(text)) == "auto"@ ==> next_answers(answers, text).max_fee is None
            && next_answers(answers, text).priority_fee is None && next_answers(answers, text).step
            == Step::Early,
{
    law_typed_fees_are_taken(max_fee, priority_fee);
}

/// The lead is the number of milliseconds that was typed, and then the snipe is shown, with all that
/// was answered; what is no number is asked for again.
pub proof fn law_lead_is_what_was_typed(
    answers: Answers,
    chat_id: i64,
    n: nat,
    text: Seq<char>,
    wallets_file: Seq<char>,
    rpc_urls: Seq<Seq<char>>,
)
    requires
        answers.step == Step::Early,
    ensures
        n <= u64::MAX ==> {
            let after = next_answers(answers, decimal(n));
            &&& after.early_fire_ms == n
            &&& after.step == Step::Confirm
            &&& answer_effect(answers, chat_id, decimal(n), wallets_file, rpc_urls) matches
                Effect::Preview(chat, shown, options) && {
                &&& chat == chat_id
                &&& shown == after
                &&& options.collection == answers.collection
                &&& options.quantity == Some(answers.quantity)
                &&& answers.chain is Some ==> options.chain == answers.chain
                &&& options.wallet_indices == answers.wallets
                &&& options.max_fee == answers.max_fee
                &&& options.priority_fee == answers.priority_fee
                &&& options.early_fire_ms == n
                &&& options.rpc_urls == rpc_urls
            }
        },
        n > u64::MAX ==> next_answers(answers, decimal(n)) == answers,
        unsigned_value(text, u64::MAX as nat) is None ==> next_answers(answers, text) == answers
            && answer_effect(answers, chat_id, text, wallets_file, rpc_urls) == Effect::Send(
            chat_id,
            "Send a number of milliseconds or `0`."@,
        ),
{
    law_decimal_parses(n, u64::MAX as nat);
}

/// A file whose name ends in `.json`, in any case, is fetched under its identity; any other is not,
/// and neither changes anything by itself.
pub proof fn law_json_files_are_fetched(
    allowed: Seq<i64>,
    chats: Chats,
    update: Json,
    wallets_file: Seq<char>,
    rpc_urls: Seq<Seq<char>>,
    document: Json,
    stem: Seq<char>,
    ending: Seq<char>,
    file_id: Seq<char>,
)
    requires
        allowed.contains(update_chat(update)),
        update.member("callback_query"@) is None,
        update.member("message"@) is Some,
        string_member(update.member("message"@), "text"@) is None,
        update.member("message"@)->0.member("document"@) == Some(document),
        string_member(Some(document), "file_name"@) == Some(stem + ending),
        string_member(Some(document), "file_id"@) == Some(file_id),
        ending.len() == 5,
    ensures
        ({
            let turn = update_turn(allowed, chats, update, wallets_file, rpc_urls);
            &&& turn.chats == chats
            &&& lowered(ending) == ".json"@ ==> turn.effects == seq![
                Effect::FetchFile(update_chat(update), file_id),
            ]
            &&& lowered(ending) != ".json"@ ==> turn.effects == seq![
                Effect::Send(
                    update_chat(update),
                    "📎 Send a wallets.json file (keys are never read back to chat)."@,
                ),
            ]
        }),
{
    let name = stem + ending;
    reveal_strlit(".json");
    assert(lowered(name).subrange(name.len() - 5, name.len() as int) == lowered(ending));
}

/// A stranger's message is noted under its chat, and that is all.
pub proof fn law_strangers_are_noted(
    allowed: Seq<i64>,
    chats: Chats,
    update: Json,
    wallets_file: Seq<char>,
    rpc_urls: Seq<Seq<char>>,
)
    requires
        !allowed.contains(update_chat(update)),
        update.member("callback_query"@) is None,
        update.member("message"@) is Some,
    ensures
        update_turn(allowed, chats, update, wallets_file, rpc_urls).effects == seq![
            Effect::NoteStranger(update_chat(update)),
        ],
{
}

/// Starting a snipe adds one to its chat's count, and ending one takes one away, but never below
/// zero; wizards and other chats are not touched.
pub proof fn law_counts_move_by_one(chats: Chats, chat_id: i64, other: i64)
    requires
        running(chats, chat_id) < usize::MAX,
    ensures
        running(one_more(chats, chat_id), chat_id) == running(chats, chat_id) + 1,
        running(chats, chat_id) > 0 ==> running(one_less(chats, chat_id), chat_id) == running(
            chats,
            chat_id,
        ) - 1,
        running(chats, chat_id) == 0 ==> running(one_less(chats, chat_id), chat_id) == 0,
        other != chat_id ==> running(one_more(chats, chat_id), other) == running(chats, other)
            && running(one_less(chats, chat_id), other) == running(chats, other),
        one_more(chats, chat_id).wizards == chats.wizards,
        one_less(chats, chat_id).wizards == chats.wizards,
        chats.active.contains_key(chat_id) ==> running(chats, chat_id) == chats.active[chat_id],
        !chats.active.contains_key(chat_id) ==> running(chats, chat_id) == 0,
{
}

/// A whole conversation: whatever collection, chain, quantity, wallets, fees and lead a chat gives,
/// one after the other, the wizard ends at the last question with exactly these answers.
pub proof fn law_conversation(
    chats: Chats,
    chat_id: i64,
    collection: Seq<char>,
    chain: Seq<char>,
    quantity: u64,
    indices: Seq<usize>,
    max_fee: nat,
    priority_fee: nat,
    early_fire_ms: u64,
)
    requires
        collection.len() > 0,
        !is_white(collection[0]),
        !is_white(collection.last()),
        quantity > 0,
        indices.len() > 0,
        indices.no_duplicates(),
        max_fee <= u128::MAX,
        priority_fee <= u128::MAX,
    ensures
        ({
            let asked = next_answers(no_answers(), collection);
            let chosen = with_chain(
                with_wizard(chats, chat_id, asked),
                chat_id,
                chain,
            ).wizards[chat_id];
            let counted = next_answers(chosen, decimal(quantity as nat));
            let selected = next_answers(counted, selection_text(indices));
            let priced = next_answers(
                selected,
                gwei_text(max_fee) + seq!['/'] + gwei_text(priority_fee),
            );
            next_answers(priced, decimal(early_fire_ms as nat)) == (Answers {
                step: Step::Confirm,
                collection,
                chain: Some(chain),
                quantity,
                wallets: Some(indices),
                max_fee: Some(max_fee / 1_000_000 * 1_000_000),
                priority_fee: Some(priority_fee / 1_000_000 * 1_000_000),
                early_fire_ms,
            })
        }),
{
    law_trimming_keeps_the_middle(Seq::empty(), collection, Seq::empty());
    assert(Seq::<char>::empty() + collection + Seq::<char>::empty() == collection);
    law_decimal_parses(quantity as nat, u64::MAX as nat);
    law_decimal_parses(early_fire_ms as nat, u64::MAX as nat);
    law_typed_indices_are_selected(indices);
    law_typed_fees_are_taken(max_fee, priority_fee);
}

/// A snipe that failed is told to its own chat, with what went wrong; one that did not is not.
pub proof fn law_failures_are_told(chat_id: i64, error: SnipeError)
    ensures
        farewell(chat_id, Ok(())).len() == 0,
        farewell(chat_id, Err(error)).len() == 1,
        farewell(chat_id, Err(error))[0] matches Effect::Send(chat, text) && chat == chat_id && text
            == "❌ "@ + error.spec_message(),
{
}

/// The bot holds what a turn says: the same wizards with the same answers, the same counts, and the
/// same list of things to do; who may talk and the wallets file never change.
pub proof fn law_bot_holds_the_turn(
    before: Bot,
    after: Bot,
    actions: Seq<BotAction>,
    turn: Turn,
    chat_id: i64,
)
    requires
        Bot::took(before, after, actions, turn),
    ensures
        after.allowed@ == before.allowed@,
        after.wallets_file@ == before.wallets_file@,
        after.active@ == turn.chats.active,
        after.wizards@.contains_key(chat_id) <==> turn.chats.wizards.contains_key(chat_id),
        after.wizards@.contains_key(chat_id) ==> {
            let wizard = after.wizards@[chat_id];
            let answers = turn.chats.wizards[chat_id];
            &&& wizard.step == answers.step
            &&& wizard.collection@ == answers.collection
            &&& wizard.quantity == answers.quantity
            &&& wizard.early_fire_ms == answers.early_fire_ms
            &&& wizard.chain is Some <==> answers.chain is Some
            &&& wizard.chain matches Some(chain) ==> answers.chain == Some(chain@)
            &&& wizard.wallets is Some <==> answers.wallets is Some
            &&& wizard.wallets matches Some(list) ==> answers.wallets == Some(list@)
            &&& wizard.max_fee_per_gas is Some <==> answers.max_fee is Some
            &&& wizard.max_fee_per_gas matches Some(fee) ==> answers.max_fee == Some(fee@)
            &&& wizard.max_priority_fee_per_gas is Some <==> answers.priority_fee is Some
            &&& wizard.max_priority_fee_per_gas matches Some(fee) ==> answers.priority_fee == Some(
                fee@,
            )
        },
        actions.len() == turn.effects.len(),
        forall|i: int|
            0 <= i < actions.len() ==> (match #[trigger] actions[i] {
                BotAction::Send { chat_id: chat, text } => turn.effects[i] == Effect::Send(
                    chat,
                    text@,
                ),
                BotAction::Fire { chat_id: chat, options } => turn.effects[i] matches Effect::Fire(
                    other,
                    value,
                ) && other == chat && value.collection == options.collection@ && value.quantity
                    == options.quantity && value.early_fire_ms == options.early_fire_ms
                    && value.gas_limit == options.gas_limit && value.fire_now == options.fire_now
                    && value.key_count == options.key_count,
                BotAction::FetchFile { chat_id: chat, file_id } => turn.effects[i]
                    == Effect::FetchFile(chat, file_id@),
                BotAction::AnswerCallback { callback_id } => turn.effects[i]
                    == Effect::AnswerCallback(callback_id@),
                BotAction::NoteStranger { chat_id: chat } => turn.effects[i]
                    == Effect::NoteStranger(chat),
                BotAction::ListWallets { chat_id: chat } => turn.effects[i] == Effect::ListWallets(
                    chat,
                ),
                BotAction::Preview { chat_id: chat, .. } => turn.effects[i] matches Effect::Preview(
                    other,
                    _,
                    _,
                ) && other == chat,
                BotAction::SendKeyboard { chat_id: chat, text, row } => turn.effects[i] matches
                    Effect::SendKeyboard(other, told, shown) && other == chat && told == text@
                    && shown.len() == row@.len() && forall|k: int|
                    0 <= k < row@.len() ==> #[trigger] shown[k] == (row@[k].label@, row@[k].data@),
            }),
{
    assert forall|i: int| 0 <= i < actions.len() implies #[trigger] effects(actions)[i]
        == actions[i]@ by {}
    assert(effects(actions) == turn.effects);
    assert forall|i: int| 0 <= i < actions.len() implies turn.effects[i] == (
    #[trigger] actions[i])@ by {
        assert(effects(actions)[i] == actions[i]@);
    }
}

} // verus!
