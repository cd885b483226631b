//! Requests to Telegram, and its replies.

use vstd::prelude::*;

use crate::actions::Button;
use crate::config::BotError;
use crate::json::{string_member, text_member, Json};
use crate::snipe::prefixed;
use crate::text::{contains, has_part, occurs_at};

verus! {

/// Where requests go.
pub const API_BASE: &'static str = "https://api.telegram.org/bot";

/// How long Telegram waits for an update, in seconds.
pub const POLL_TIMEOUT_SECONDS: i64 = 25;

/// Where a request, or the download of a file, goes.
pub fn api_url(token: &str, path: &str) -> (url: String)
    ensures
        url@ == API_BASE@ + token@ + "/"@ + path@,
{
    let mut url = prefixed(API_BASE, token);
    url.append("/");
    url.append(path);
    url
}

/// Does a reply say that the request was granted?
pub open spec fn is_granted(reply: Json) -> bool {
    match reply.member("ok"@) {
        Some(ok) => ok.truth() == Some(true),
        None => false,
    }
}

/// What a refusal says of itself.
pub open spec fn refusal_text(reply: Json) -> Seq<char> {
    match string_member(Some(reply), "description"@) {
        Some(text) => text,
        None => "unknown error"@,
    }
}

/// Takes the result out of a reply. A reply without one has the result `null`.
pub fn reply_result<'a>(method: &str, reply: &'a Json) -> (result: Result<Option<&'a Json>, BotError>)
    ensures
        is_granted(*reply) ==> {
            &&& result is Ok
            &&& result->Ok_0 is Some <==> reply.member("result"@) is Some
            &&& result->Ok_0 matches Some(found) ==> reply.member("result"@) == Some(*found)
        },
        !is_granted(*reply) ==> (result matches Err(BotError::TelegramApi(text)) && text@ == method@
            + ": "@ + refusal_text(*reply)),
{
    let granted = match reply.get("ok") {
        Some(ok) => match ok.as_bool() {
            Some(b) => b,
            None => false,
        },
        None => false,
    };
    if !granted {
        let description = match text_member(reply, "description") {
            Some(text) => text,
            None => "unknown error",
        };
        let mut text = prefixed(method, ": ");
        text.append(description);
        return Err(BotError::TelegramApi(text));
    }
    Ok(reply.get("result"))
}

/// How many members an object has.
pub open spec fn member_count(value: Json) -> nat {
    match value {
        Json::Object(members) => members@.len(),
        _ => 0,
    }
}

/// The parameters of a message.
pub fn message_params(chat_id: i64, text: &str) -> (params: Json)
    ensures
        member_count(params) == 3,
        params.member("chat_id"@) == Some(Json::Int(chat_id)),
        string_member(Some(params), "text"@) == Some(text@),
        params.member("disable_web_page_preview"@) == Some(Json::Bool(true)),
{
    let mut members: Vec<(String, Json)> = Vec::new();
    members.push(("chat_id".to_owned(), Json::Int(chat_id)));
    members.push(("text".to_owned(), Json::Text(text.to_owned())));
    members.push(("disable_web_page_preview".to_owned(), Json::Bool(true)));
    proof {
        reveal_strlit("chat_id");
        reveal_strlit("text");
        reveal_strlit("disable_web_page_preview");
        assert("chat_id"@[0] == 'c' && "text"@[0] == 't' && "disable_web_page_preview"@[0] == 'd');
        reveal_with_fuel(crate::json::member_index, 4);
    }
    Json::Object(members)
}

/// Is `value` that button?
pub open spec fn is_button(value: Json, button: Button) -> bool {
    &&& member_count(value) == 2
    &&& string_member(Some(value), "text"@) == Some(button.label@)
    &&& string_member(Some(value), "callback_data"@) == Some(button.data@)
}

/// The buttons in a value that holds rows of them.
pub open spec fn only_row(value: Option<Json>) -> Option<Seq<Json>> {
    match value {
        Some(markup) => match markup.member("inline_keyboard"@) {
            Some(rows) => match rows.items() {
                Some(list) => if list.len() == 1 && member_count(markup) == 1 {
                    list[0].items()
                } else {
                    None
                },
                None => None,
            },
            None => None,
        },
        None => None,
    }
}

/// A button as a value.
fn button_value(button: &Button) -> (value: Json)
    ensures
        is_button(value, *button),
{
    let mut members: Vec<(String, Json)> = Vec::new();
    members.push(("text".to_owned(), Json::Text(button.label.clone())));
    members.push(("callback_data".to_owned(), Json::Text(button.data.clone())));
    proof {
        reveal_strlit("text");
        reveal_strlit("callback_data");
        assert("text"@[0] == 't' && "callback_data"@[0] == 'c');
        reveal_with_fuel(crate::json::member_index, 3);
    }
    Json::Object(members)
}

/// The parameters of a message with one row of buttons.
pub fn keyboard_params(chat_id: i64, text: &str, row: &Vec<Button>) -> (params: Json)
    ensures
        member_count(params) == 4,
        params.member("chat_id"@) == Some(Json::Int(chat_id)),
        string_member(Some(params), "text"@) == Some(text@),
        params.member("disable_web_page_preview"@) == Some(Json::Bool(true)),
        only_row(params.member("reply_markup"@)) is Some,
        only_row(params.member("reply_markup"@))->0.len() == row@.len(),
        forall|i: int|
            0 <= i < row@.len() ==> is_button(
                #[trigger] only_row(params.member("reply_markup"@))->0[i],
                row@[i],
            ),
{
    let mut buttons: Vec<Json> = Vec::new();
    let mut i: usize = 0;
    while i < row.len()
        invariant
            i <= row@.len(),
            buttons@.len() == i,
            forall|j: int| 0 <= j < i ==> is_button(#[trigger] buttons@[j], row@[j]),
        decreases row@.len() - i,
    {
        buttons.push(button_value(&row[i]));
        i += 1;
    }
    let mut rows: Vec<Json> = Vec::new();
    rows.push(Json::Array(buttons));
    let mut markup: Vec<(String, Json)> = Vec::new();
    markup.push(("inline_keyboard".to_owned(), Json::Array(rows)));
    let mut members: Vec<(String, Json)> = Vec::new();
    members.push(("chat_id".to_owned(), Json::Int(chat_id)));
    members.push(("text".to_owned(), Json::Text(text.to_owned())));
    members.push(("disable_web_page_preview".to_owned(), Json::Bool(true)));
    let markup_value = Json::Object(markup);
    members.push(("reply_markup".to_owned(), markup_value));
    let params = Json::Object(members);
    proof {
        reveal_strlit("chat_id");
        reveal_strlit("text");
        reveal_strlit("disable_web_page_preview");
        reveal_strlit("reply_markup");
        assert("chat_id"@[0] == 'c' && "text"@[0] == 't' && "disable_web_page_preview"@[0] == 'd'
            && "reply_markup"@[0] == 'r');
        reveal_with_fuel(crate::json::member_index, 5);
        assert(params.member("reply_markup"@) == Some(markup_value));
        assert(only_row(Some(markup_value)) == Some(buttons@));
    }
    params
}

/// The parameters of the question for updates from `offset` on.
pub fn updates_params(offset: i64) -> (params: Json)
    ensures
        member_count(params) == 3,
        params.member("timeout"@) == Some(Json::Int(POLL_TIMEOUT_SECONDS)),
        params.member("offset"@) == Some(Json::Int(offset)),
        params.member("allowed_updates"@) is Some,
        params.member("allowed_updates"@)->0.items() is Some,
        params.member("allowed_updates"@)->0.items()->0.len() == 2,
        params.member("allowed_updates"@)->0.items()->0[0].string() == Some("message"@),
        params.member("allowed_updates"@)->0.items()->0[1].string() == Some("callback_query"@),
{
    let mut kinds: Vec<Json> = Vec::new();
    kinds.push(Json::Text("message".to_owned()));
    kinds.push(Json::Text("callback_query".to_owned()));
    let mut members: Vec<(String, Json)> = Vec::new();
    members.push(("timeout".to_owned(), Json::Int(POLL_TIMEOUT_SECONDS)));
    members.push(("offset".to_owned(), Json::Int(offset)));
    members.push(("allowed_updates".to_owned(), Json::Array(kinds)));
    proof {
        reveal_strlit("timeout");
        reveal_strlit("offset");
        reveal_strlit("allowed_updates");
        assert("timeout"@[0] == 't' && "offset"@[0] == 'o' && "allowed_updates"@[0] == 'a');
        reveal_with_fuel(crate::json::member_index, 4);
    }
    Json::Object(members)
}

/// The parameters of a request with one text.
fn text_params(name: &str, text: &str) -> (params: Json)
    ensures
        member_count(params) == 1,
        string_member(Some(params), name@) == Some(text@),
{
    let mut members: Vec<(String, Json)> = Vec::new();
    members.push((name.to_owned(), Json::Text(text.to_owned())));
    proof {
        reveal_with_fuel(crate::json::member_index, 2);
    }
    Json::Object(members)
}

/// The parameters of the acknowledgement of a press.
pub fn answer_params(callback_id: &str) -> (params: Json)
    ensures
        member_count(params) == 1,
        string_member(Some(params), "callback_query_id"@) == Some(callback_id@),
{
    text_params("callback_query_id", callback_id)
}

/// The parameters of the question for a file.
pub fn file_params(file_id: &str) -> (params: Json)
    ensures
        member_count(params) == 1,
        string_member(Some(params), "file_id"@) == Some(file_id@),
{
    text_params("file_id", file_id)
}

/// The updates in a result, where it holds any.
pub fn updates_of(result: Option<&Json>) -> (updates: Option<&Vec<Json>>)
    ensures
        match result {
            Some(value) => {
                &&& updates matches Some(list) ==> value.items() == Some(list@)
                &&& updates is None <==> value.items() is None
            },
            None => updates is None,
        },
{
    match result {
        Some(value) => value.as_array(),
        None => None,
    }
}

/// The name of the bot.
pub fn username(me: Option<&Json>) -> (name: String)
    ensures
        name@ == (match me {
            Some(value) => match string_member(Some(*value), "username"@) {
                Some(text) => text,
                None => "?"@,
            },
            None => "?"@,
        }),
{
    match me {
        Some(value) => match text_member(value, "username") {
            Some(text) => text.to_owned(),
            None => "?".to_owned(),
        },
        None => "?".to_owned(),
    }
}

/// The number of an update, where it has one.
pub open spec fn update_number(update: Json) -> Option<i64> {
    match update.member("update_id"@) {
        Some(id) => id.whole(),
        None => None,
    }
}

/// Reads the number of an update.
pub fn update_id(update: &Json) -> (id: Option<i64>)
    ensures
        id == update_number(*update),
{
    match update.get("update_id") {
        Some(id) => id.as_i64(),
        None => None,
    }
}

/// The offset behind an update; the old one where the update has no number.
pub open spec fn offset_after(update: Json, offset: i64) -> int {
    match update_number(update) {
        Some(id) => id + 1,
        None => offset as int,
    }
}

/// From where to ask for updates after this one: behind it, so that no update comes twice.
pub fn next_offset(update: &Json, offset: i64) -> (next: i64)
    requires
        update_number(*update) != Some(i64::MAX),
    ensures
        next == offset_after(*update, offset),
{
    match update_id(update) {
        Some(id) => id + 1,
        None => offset,
    }
}

/// What to do when updates could not be had.
#[derive(Debug)]
pub enum PollStep {
    /// Give up.
    Stop {
        /// What is told.
        text: String,
    },
    /// Try again.
    Retry {
        /// What is told.
        text: String,
        /// After how many milliseconds.
        pause_ms: u64,
    },
}

/// Is this the complaint that somebody else is polling?
pub open spec fn is_conflict(error: BotError) -> bool {
    error matches BotError::TelegramApi(text) && has_part(text@, "Conflict"@)
}

/// Is `step` what follows an error on the way to the updates?
pub open spec fn is_poll_step(error: BotError, step: PollStep) -> bool {
    &&& is_conflict(error) ==> (step matches PollStep::Stop { text } && text@
        == "another bot instance is polling with this token — stop it first"@)
    &&& !is_conflict(error) ==> (step matches PollStep::Retry { text, pause_ms } && pause_ms == 3_000
        && text@ == "getUpdates failed: "@ + error.spec_message() + " — retrying in 3s"@)
}

/// Settles what to do when updates could not be had: another instance that polls with the same token
/// ends this one, and anything else is tried again after three seconds.
pub fn poll_failed(error: &BotError) -> (step: PollStep)
    ensures
        is_poll_step(*error, step),
{
    if let BotError::TelegramApi(text) = error {
        if contains(text.as_str(), "Conflict") {
            return PollStep::Stop {
                text: "another bot instance is polling with this token — stop it first".to_owned(),
            };
        }
    }
    let mut text = prefixed("getUpdates failed: ", error.message().as_str());
    text.append(" — retrying in 3s");
    PollStep::Retry { text, pause_ms: 3_000 }
}

/// A request was granted exactly where the reply says `"ok": true`; a refusal is quoted.
pub proof fn law_granted_replies(reply: Json)
    ensures
        reply.member("ok"@) == Some(Json::Bool(true)) <==> is_granted(reply),
        string_member(Some(reply), "description"@) matches Some(text) ==> refusal_text(reply) == text,
        string_member(Some(reply), "description"@) is None ==> refusal_text(reply)
            == "unknown error"@,
{
    if is_granted(reply) {
        assert(reply.member("ok"@)->0 == Json::Bool(true));
    }
}

/// No update comes twice and none is passed over: the next question begins right behind the update.
pub proof fn law_offset_moves_on(update: Json, offset: i64, id: i64)
    ensures
        update.member("update_id"@) == Some(Json::Int(id)) ==> offset_after(update, offset) == id + 1,
        update.member("update_id"@) is None ==> offset_after(update, offset) == offset,
{
}

/// Only a conflict that Telegram itself reports ends the bot; anything else is tried again after
/// three seconds, however often it comes.
pub proof fn law_only_conflicts_stop(
    error: BotError,
    step: PollStep,
    before: Seq<char>,
    after: Seq<char>,
)
    requires
        is_poll_step(error, step),
    ensures
        error matches BotError::TelegramApi(text) ==> (text@ == before + "Conflict"@ + after
            ==> step is Stop),
        error matches BotError::TelegramApi(text) ==> (!has_part(text@, "Conflict"@)
            ==> step is Retry),
        !(error is TelegramApi) ==> step is Retry,
        step matches PollStep::Retry { text, pause_ms } ==> pause_ms == 3_000 && text@
            == "getUpdates failed: "@ + error.spec_message() + " — retrying in 3s"@,
{
    let s = before + "Conflict"@ + after;
    let k = before.len() as int;
    assert(s.subrange(k, k + "Conflict"@.len()) == "Conflict"@);
    assert(occurs_at(s, "Conflict"@, k));
}

/// A button shows its label and sends its data, and stands in the only row of its keyboard.
pub proof fn law_buttons_send_their_data(value: Json, button: Button, markup: Json, row: Seq<Json>)
    ensures
        is_button(value, button) ==> string_member(Some(value), "text"@) == Some(button.label@)
            && string_member(Some(value), "callback_data"@) == Some(button.data@),
        only_row(Some(markup)) == Some(row) ==> (markup.member("inline_keyboard"@) matches Some(rows)
            && (rows.items() matches Some(list) && list.len() == 1 && list[0].items() == Some(row))),
{
}

} // verus!
