//! What the bot asks its surroundings to do.

use vstd::prelude::*;

use crate::snipe::{OptionsValue, SnipeOptions};
use crate::wizard::{Answers, Wizard};

verus! {

/// A button: what it shows and what pressing it sends.
#[derive(Debug)]
pub struct Button {
    /// What it shows.
    pub label: String,
    /// What pressing it sends.
    pub data: String,
}

/// Something to be done outside.
#[derive(Debug)]
pub enum BotAction {
    /// Send a message.
    Send {
        /// The chat.
        chat_id: i64,
        /// The message.
        text: String,
    },
    /// Send a message with one row of buttons.
    SendKeyboard {
        /// The chat.
        chat_id: i64,
        /// The message.
        text: String,
        /// The buttons.
        row: Vec<Button>,
    },
    /// Acknowledge the press of a button.
    AnswerCallback {
        /// Which press.
        callback_id: String,
    },
    /// Note that a stranger's message was ignored.
    NoteStranger {
        /// The stranger's chat.
        chat_id: i64,
    },
    /// List the wallets of the file.
    ListWallets {
        /// The chat.
        chat_id: i64,
    },
    /// Fetch an uploaded file.
    FetchFile {
        /// The chat.
        chat_id: i64,
        /// Which file.
        file_id: String,
    },
    /// Look at a snipe without firing it.
    Preview {
        /// The chat.
        chat_id: i64,
        /// The answers that asked for it.
        wizard: Wizard,
        /// The snipe.
        options: SnipeOptions,
    },
    /// Run a snipe in the background.
    Fire {
        /// The chat.
        chat_id: i64,
        /// The snipe.
        options: SnipeOptions,
    },
}

/// Something to be done outside, as a value.
pub enum Effect {
    /// Send a message to a chat.
    Send(i64, Seq<char>),
    /// Send a message with one row of buttons: what each shows and sends.
    SendKeyboard(i64, Seq<char>, Seq<(Seq<char>, Seq<char>)>),
    /// Acknowledge the press of a button.
    AnswerCallback(Seq<char>),
    /// Note that a stranger's message was ignored.
    NoteStranger(i64),
    /// List the wallets of the file.
    ListWallets(i64),
    /// Fetch an uploaded file.
    FetchFile(i64, Seq<char>),
    /// Look at a snipe without firing it, given the answers that asked for it.
    Preview(i64, Answers, OptionsValue),
    /// Run a snipe in the background.
    Fire(i64, OptionsValue),
}

/// A row of buttons as a value.
pub open spec fn row_value(row: Seq<Button>) -> Seq<(Seq<char>, Seq<char>)> {
    Seq::new(row.len(), |i: int| (row[i].label@, row[i].data@))
}

impl View for BotAction {
    type V = Effect;

    open spec fn view(&self) -> Effect {
        match *self {
            BotAction::Send { chat_id, text } => Effect::Send(chat_id, text@),
            BotAction::SendKeyboard { chat_id, text, row } => Effect::SendKeyboard(
                chat_id,
                text@,
                row_value(row@),
            ),
            BotAction::AnswerCallback { callback_id } => Effect::AnswerCallback(callback_id@),
            BotAction::NoteStranger { chat_id } => Effect::NoteStranger(chat_id),
            BotAction::ListWallets { chat_id } => Effect::ListWallets(chat_id),
            BotAction::FetchFile { chat_id, file_id } => Effect::FetchFile(chat_id, file_id@),
            BotAction::Preview { chat_id, wizard, options } => Effect::Preview(
                chat_id,
                wizard@,
                options@,
            ),
            BotAction::Fire { chat_id, options } => Effect::Fire(chat_id, options@),
        }
    }
}

/// The effects of a list of actions.
pub open spec fn effects(actions: Seq<BotAction>) -> Seq<Effect> {
    Seq::new(actions.len(), |i: int| actions[i]@)
}

/// Does an effect reach that chat: a message, a snipe, or anything else on its behalf? Acknowledging
/// a press and noting a stranger do not.
pub open spec fn reaches(effect: Effect, chat_id: i64) -> bool {
    match effect {
        Effect::Send(chat, _) => chat == chat_id,
        Effect::SendKeyboard(chat, _, _) => chat == chat_id,
        Effect::AnswerCallback(_) => false,
        Effect::NoteStranger(_) => false,
        Effect::ListWallets(chat) => chat == chat_id,
        Effect::FetchFile(chat, _) => chat == chat_id,
        Effect::Preview(chat, _, _) => chat == chat_id,
        Effect::Fire(chat, _) => chat == chat_id,
    }
}

/// A message to a chat.
pub fn message(chat_id: i64, text: &str) -> (action: BotAction)
    ensures
        action@ == Effect::Send(chat_id, text@),
{
    BotAction::Send { chat_id, text: text.to_owned() }
}

/// A button.
pub fn button(label: &str, data: &str) -> (made: Button)
    ensures
        made.label@ == label@,
        made.data@ == data@,
{
    Button { label: label.to_owned(), data: data.to_owned() }
}

/// No action.
pub fn nothing() -> (actions: Vec<BotAction>)
    ensures
        effects(actions@) == Seq::<Effect>::empty(),
{
    let actions: Vec<BotAction> = Vec::new();
    assert(effects(actions@) == Seq::<Effect>::empty());
    actions
}

/// The one action of a list.
pub fn only(action: BotAction) -> (actions: Vec<BotAction>)
    ensures
        effects(actions@) == seq![action@],
{
    let mut actions: Vec<BotAction> = Vec::new();
    actions.push(action);
    assert(effects(actions@) == seq![action@]);
    actions
}

/// Two actions.
pub fn both(first: BotAction, second: BotAction) -> (actions: Vec<BotAction>)
    ensures
        effects(actions@) == seq![first@, second@],
{
    let mut actions: Vec<BotAction> = Vec::new();
    actions.push(first);
    actions.push(second);
    assert(effects(actions@) == seq![first@, second@]);
    actions
}

} // verus!
