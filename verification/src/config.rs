//! How the bot is set up, and why it fails.

use vstd::prelude::*;

use crate::snipe::{prefixed, SnipeError};
use crate::text::{
    contents, decimal, is_digit, law_signed_decimal_parses, law_trimming_keeps_the_middle,
    lemma_decimal_reads_back, lemma_single_piece, parse_i64, pieces, signed_value, split, trim,
    trimmed,
};

verus! {

/// Why the bot failed.
#[derive(Debug)]
pub enum BotError {
    /// There is no token.
    MissingToken,
    /// Nobody is named who may talk to the bot.
    MissingAllowedChats,
    /// The list of those who may talk to the bot is blank.
    NoAllowedChats,
    /// An entry of that list is no chat id.
    InvalidChatId(String),
    /// Telegram refused a request.
    TelegramApi(String),
    /// A request did not get through.
    Telegram(String),
    /// There is no HTTP client.
    Http,
    /// A snipe failed.
    Snipe(SnipeError),
}

impl BotError {
    /// The text that tells what went wrong.
    pub open spec fn spec_message(self) -> Seq<char> {
        match self {
            BotError::MissingToken =>
                "BOT_TOKEN is not set — create one with @BotFather and add it to .env"@,
            BotError::MissingAllowedChats =>
                "ALLOWED_CHAT_IDS is not set — comma-separated numeric chat ids (find yours with @userinfobot)"@,
            BotError::NoAllowedChats => "ALLOWED_CHAT_IDS contains no valid chat ids"@,
            BotError::InvalidChatId(entry) => "invalid ALLOWED_CHAT_IDS entry: "@ + entry@,
            BotError::TelegramApi(text) => "Telegram API error: "@ + text@,
            BotError::Telegram(text) => "Telegram request failed: "@ + text@,
            BotError::Http => "cannot construct the Telegram HTTP client"@,
            BotError::Snipe(error) => error.spec_message(),
        }
    }

    /// Tells what went wrong.
    pub fn message(&self) -> (text: String)
        ensures
            text@ == self.spec_message(),
    {
        match self {
            BotError::MissingToken => {
                "BOT_TOKEN is not set — create one with @BotFather and add it to .env".to_owned()
            },
            BotError::MissingAllowedChats => {
                "ALLOWED_CHAT_IDS is not set — comma-separated numeric chat ids (find yours with @userinfobot)".to_owned()
            },
            BotError::NoAllowedChats => "ALLOWED_CHAT_IDS contains no valid chat ids".to_owned(),
            BotError::InvalidChatId(entry) => prefixed("invalid ALLOWED_CHAT_IDS entry: ", entry),
            BotError::TelegramApi(text) => prefixed("Telegram API error: ", text),
            BotError::Telegram(text) => prefixed("Telegram request failed: ", text),
            BotError::Http => "cannot construct the Telegram HTTP client".to_owned(),
            BotError::Snipe(error) => error.message(),
        }
    }
}

/// How the bot is set up.
#[derive(Debug)]
pub struct BotConfig {
    /// The token.
    pub token: String,
    /// The chats that may talk to the bot.
    pub allowed: Vec<i64>,
    /// The wallets file.
    pub wallets_file: String,
}

/// The wallets file, unless another one is named.
pub const DEFAULT_WALLETS_FILE: &'static str = "wallets.json";

/// The chat ids that a list of entries names, each once, in the order in which they first come, or
/// the first entry that is none. Blank entries do not count.
pub open spec fn chat_ids(entries: Seq<Seq<char>>) -> Result<Seq<i64>, Seq<char>>
    decreases entries.len(),
{
    if entries.len() == 0 {
        Ok(Seq::empty())
    } else {
        let entry = trimmed(entries.last());
        match chat_ids(entries.drop_last()) {
            Err(bad) => Err(bad),
            Ok(before) => if entry.len() == 0 {
                Ok(before)
            } else {
                match signed_value(entry) {
                    Some(id) => if before.contains(id as i64) {
                        Ok(before)
                    } else {
                        Ok(before.push(id as i64))
                    },
                    None => Err(entry),
                }
            },
        }
    }
}

/// The first entry that is no chat id is the one that the whole list complains of.
proof fn lemma_first_bad_chat(entries: Seq<Seq<char>>, n: int)
    requires
        0 <= n <= entries.len(),
        chat_ids(entries.take(n)) is Err,
    ensures
        chat_ids(entries) == chat_ids(entries.take(n)),
    decreases entries.len(),
{
    if n == entries.len() {
        assert(entries.take(n) == entries);
    } else {
        assert(entries.drop_last().take(n) == entries.take(n));
        lemma_first_bad_chat(entries.drop_last(), n);
    }
}

/// No chat is named twice.
pub proof fn law_chats_are_named_once(entries: Seq<Seq<char>>)
    ensures
        chat_ids(entries) matches Ok(ids) ==> ids.no_duplicates(),
    decreases entries.len(),
{
    if entries.len() > 0 {
        law_chats_are_named_once(entries.drop_last());
    }
}

/// Tells whether a chat id stands in a list.
fn has_chat(list: &Vec<i64>, id: i64) -> (found: bool)
    ensures
        found == list@.contains(id),
{
    let mut i: usize = 0;
    while i < list.len()
        invariant
            i <= list@.len(),
            forall|j: int| 0 <= j < i ==> list@[j] != id,
        decreases list@.len() - i,
    {
        if list[i] == id {
            assert(list@[i as int] == id);
            return true;
        }
        i += 1;
    }
    false
}

/// Reads who may talk to the bot.
pub fn parse_allowed_chats(raw: &str) -> (allowed: Result<Vec<i64>, BotError>)
    ensures
        match chat_ids(pieces(raw@, ',')) {
            Err(bad) => allowed matches Err(BotError::InvalidChatId(entry)) && entry@ == bad,
            Ok(ids) => if ids.len() == 0 {
                allowed == Err::<Vec<i64>, BotError>(BotError::NoAllowedChats)
            } else {
                allowed is Ok && allowed->Ok_0@ == ids
            },
        },
{
    let entries = split(raw, ',');
    let ghost named = contents(entries@);
    let mut allowed: Vec<i64> = Vec::new();
    let mut i: usize = 0;
    assert(named.take(0) == Seq::<Seq<char>>::empty());
    while i < entries.len()
        invariant
            i <= entries@.len(),
            named == contents(entries@),
            named == pieces(raw@, ','),
            chat_ids(named.take(i as int)) == Ok::<Seq<i64>, Seq<char>>(allowed@),
        decreases entries@.len() - i,
    {
        let ghost next = named.take(i + 1);
        assert(next.drop_last() == named.take(i as int));
        assert(next.last() == entries@[i as int]@);
        let entry = trim(entries[i].as_str());
        if !entry.is_empty() {
            match parse_i64(entry) {
                Some(id) => {
                    if !has_chat(&allowed, id) {
                        allowed.push(id);
                    }
                },
                None => {
                    proof {
                        lemma_first_bad_chat(named, i + 1);
                    }
                    return Err(BotError::InvalidChatId(entry.to_owned()));
                },
            }
        }
        i += 1;
    }
    assert(named.take(i as int) == named);
    if allowed.len() == 0 {
        return Err(BotError::NoAllowedChats);
    }
    Ok(allowed)
}

/// Is the token there at all?
pub open spec fn has_token(token: Option<String>) -> bool {
    match token {
        Some(text) => trimmed(text@).len() > 0,
        None => false,
    }
}

/// Is `config` what the environment comes to?
pub open spec fn is_config(
    token: Option<String>,
    allowed_chats: Option<String>,
    wallets_file: Option<String>,
    config: Result<BotConfig, BotError>,
) -> bool {
    &&& !has_token(token) ==> config == Err::<BotConfig, BotError>(BotError::MissingToken)
    &&& has_token(token) && allowed_chats is None ==> config == Err::<BotConfig, BotError>(
        BotError::MissingAllowedChats,
    )
    &&& has_token(token) && allowed_chats is Some ==> match chat_ids(
        pieces(allowed_chats->0@, ','),
    ) {
        Err(bad) => config matches Err(BotError::InvalidChatId(entry)) && entry@ == bad,
        Ok(ids) => if ids.len() == 0 {
            config == Err::<BotConfig, BotError>(BotError::NoAllowedChats)
        } else {
            &&& config is Ok
            &&& Some(config->Ok_0.token) == token
            &&& config->Ok_0.allowed@ == ids
            &&& config->Ok_0.wallets_file@ == (match wallets_file {
                Some(file) => file@,
                None => DEFAULT_WALLETS_FILE@,
            })
        },
    }
}

/// Sets the bot up from what the environment says: the token, who may talk to the bot, and the
/// wallets file. The token is asked for first.
pub fn read_config(
    token: Option<String>,
    allowed_chats: Option<String>,
    wallets_file: Option<String>,
) -> (config: Result<BotConfig, BotError>)
    ensures
        is_config(token, allowed_chats, wallets_file, config),
{
    let token = match token {
        Some(text) => text,
        None => {
            return Err(BotError::MissingToken);
        },
    };
    if trim(token.as_str()).is_empty() {
        return Err(BotError::MissingToken);
    }
    let raw = match allowed_chats {
        Some(raw) => raw,
        None => {
            return Err(BotError::MissingAllowedChats);
        },
    };
    let allowed = match parse_allowed_chats(raw.as_str()) {
        Ok(allowed) => allowed,
        Err(error) => {
            return Err(error);
        },
    };
    let wallets_file = match wallets_file {
        Some(file) => file,
        None => DEFAULT_WALLETS_FILE.to_owned(),
    };
    Ok(BotConfig { token, allowed, wallets_file })
}

/// The entries that are not blank, without the white space around them.
pub open spec fn filled(entries: Seq<Seq<char>>) -> Seq<Seq<char>>
    decreases entries.len(),
{
    if entries.len() == 0 {
        Seq::empty()
    } else {
        let before = filled(entries.drop_last());
        let entry = trimmed(entries.last());
        if entry.len() == 0 {
            before
        } else {
            before.push(entry)
        }
    }
}

/// The text of an optional string.
pub open spec fn str_value(text: Option<&str>) -> Option<Seq<char>> {
    match text {
        Some(t) => Some(t@),
        None => None,
    }
}

/// The endpoints of the first of two lists that is there.
pub open spec fn env_urls(first: Option<Seq<char>>, second: Option<Seq<char>>) -> Seq<Seq<char>> {
    match (first, second) {
        (Some(list), _) => filled(pieces(list, ',')),
        (None, Some(list)) => filled(pieces(list, ',')),
        (None, None) => Seq::empty(),
    }
}

/// The endpoints that the environment names for the bot: `RPC_URL_BOT`, or else `RPC_URL`, each a
/// list with commas.
pub fn env_rpc_urls(rpc_url_bot: Option<&str>, rpc_url: Option<&str>) -> (urls: Vec<String>)
    ensures
        contents(urls@) == env_urls(str_value(rpc_url_bot), str_value(rpc_url)),
{
    let mut urls: Vec<String> = Vec::new();
    assert(contents(urls@) == Seq::<Seq<char>>::empty());
    let list = match rpc_url_bot {
        Some(list) => list,
        None => match rpc_url {
            Some(list) => list,
            None => {
                return urls;
            },
        },
    };
    let entries = split(list, ',');
    let ghost named = contents(entries@);
    let mut i: usize = 0;
    assert(named.take(0) == Seq::<Seq<char>>::empty());
    while i < entries.len()
        invariant
            i <= entries@.len(),
            named == contents(entries@),
            contents(urls@) == filled(named.take(i as int)),
        decreases entries@.len() - i,
    {
        let ghost next = named.take(i + 1);
        let ghost before = contents(urls@);
        assert(next.drop_last() == named.take(i as int));
        assert(next.last() == entries@[i as int]@);
        let entry = trim(entries[i].as_str());
        if !entry.is_empty() {
            urls.push(entry.to_owned());
            assert(contents(urls@) == before.push(entry@));
        }
        i += 1;
    }
    assert(named.take(i as int) == named);
    urls
}

/// Each number that is listed is a chat that may talk, once and in order; negative numbers are
/// groups and count as well; a blank entry names nobody, and what is no number spoils the list.
pub proof fn law_chats_are_read_in_order(entries: Seq<Seq<char>>, next: Seq<char>)
    ensures
        chat_ids(Seq::empty()) == Ok::<Seq<i64>, Seq<char>>(Seq::empty()),
        chat_ids(entries) matches Err(bad) ==> chat_ids(entries.push(next)) == Err::<
            Seq<i64>,
            Seq<char>,
        >(bad),
        chat_ids(entries) matches Ok(ids) ==> {
            &&& trimmed(next).len() == 0 ==> chat_ids(entries.push(next)) == Ok::<
                Seq<i64>,
                Seq<char>,
            >(ids)
            &&& forall|n: i64|
                #![trigger ids.contains(n)]
                (n >= 0 && trimmed(next) == decimal(n as nat)) || (n < 0 && trimmed(next) == seq!['-']
                    + decimal((-n) as nat)) ==> chat_ids(entries.push(next)) == Ok::<
                    Seq<i64>,
                    Seq<char>,
                >(
                    if ids.contains(n) {
                        ids
                    } else {
                        ids.push(n)
                    },
                )
            &&& trimmed(next).len() > 0 && signed_value(trimmed(next)) is None ==> chat_ids(
                entries.push(next),
            ) == Err::<Seq<i64>, Seq<char>>(trimmed(next))
        },
{
    let all = entries.push(next);
    assert(all.drop_last() == entries);
    assert(all.last() == next);
    if let Ok(ids) = chat_ids(entries) {
        assert forall|n: i64|
            #![trigger ids.contains(n)]
            (n >= 0 && trimmed(next) == decimal(n as nat)) || (n < 0 && trimmed(next) == seq!['-']
                + decimal((-n) as nat)) implies chat_ids(all) == Ok::<Seq<i64>, Seq<char>>(
            if ids.contains(n) {
                ids
            } else {
                ids.push(n)
            },
        ) by {
            if n >= 0 {
                lemma_decimal_reads_back(n as nat);
                law_signed_decimal_parses(n as nat);
            } else {
                law_signed_decimal_parses((-n) as nat);
            }
        }
    }
}

/// The bot is never set up without a token or for nobody; where it is set up, the token is the given
/// one, nobody is listed twice, and the wallets file is the named one or `wallets.json`.
pub proof fn law_bot_is_owned(
    token: Option<String>,
    allowed_chats: Option<String>,
    wallets_file: Option<String>,
    config: Result<BotConfig, BotError>,
)
    requires
        is_config(token, allowed_chats, wallets_file, config),
    ensures
        config matches Ok(made) ==> {
            &&& token == Some(made.token)
            &&& trimmed(made.token@).len() > 0
            &&& allowed_chats is Some
            &&& made.allowed@.len() > 0
            &&& made.allowed@.no_duplicates()
            &&& wallets_file matches Some(file) ==> made.wallets_file@ == file@
            &&& wallets_file is None ==> made.wallets_file@ == "wallets.json"@
        },
        token is None ==> config == Err::<BotConfig, BotError>(BotError::MissingToken),
        token matches Some(text) ==> (trimmed(text@).len() == 0 ==> config == Err::<
            BotConfig,
            BotError,
        >(BotError::MissingToken)),
        token matches Some(text) ==> (trimmed(text@).len() > 0 && allowed_chats is None ==> config
            == Err::<BotConfig, BotError>(BotError::MissingAllowedChats)),
{
    if allowed_chats is Some {
        law_chats_are_named_once(pieces(allowed_chats->0@, ','));
    }
}

/// One chat's number alone sets the bot up for that chat and nobody else.
pub proof fn law_single_owner(
    token: String,
    allowed_chats: String,
    wallets_file: Option<String>,
    n: i64,
    config: Result<BotConfig, BotError>,
)
    requires
        is_config(Some(token), Some(allowed_chats), wallets_file, config),
        trimmed(token@).len() > 0,
        n >= 0,
        allowed_chats@ == decimal(n as nat),
    ensures
        config matches Ok(made) && made.allowed@ == seq![n],
{
    let s = allowed_chats@;
    lemma_decimal_reads_back(n as nat);
    law_signed_decimal_parses(n as nat);
    assert forall|i: int| 0 <= i < s.len() implies #[trigger] s[i] != ',' by {
        assert(is_digit(s[i]));
    }
    lemma_single_piece(s, ',');
    assert(is_digit(s[0]));
    assert(is_digit(s.last()));
    law_trimming_keeps_the_middle(Seq::empty(), s, Seq::empty());
    assert(Seq::<char>::empty() + s + Seq::<char>::empty() == s);
    let entries = seq![s];
    assert(entries.drop_last() == Seq::<Seq<char>>::empty());
    reveal_with_fuel(chat_ids, 2);
    assert(chat_ids(entries)->Ok_0 == seq![n]);
}

/// The bot's own list of endpoints comes before the common one, even where it is blank; entries keep
/// their order, and blank ones fall away.
pub proof fn law_env_urls(list: Seq<char>, other: Option<Seq<char>>, entries: Seq<Seq<char>>, next: Seq<
    char,
>)
    ensures
        env_urls(Some(list), other) == filled(pieces(list, ',')),
        env_urls(None, Some(list)) == filled(pieces(list, ',')),
        env_urls(None, None).len() == 0,
        filled(Seq::empty()).len() == 0,
        trimmed(next).len() == 0 ==> filled(entries.push(next)) == filled(entries),
        trimmed(next).len() > 0 ==> filled(entries.push(next)) == filled(entries).push(trimmed(next)),
{
    assert(entries.push(next).drop_last() == entries);
}

} // verus!
