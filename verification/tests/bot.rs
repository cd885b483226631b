use seadrop_sniper::actions::{BotAction, Button};
use seadrop_sniper::bot::{
    sender, Bot, ARMING, ASK_COLLECTION, ASK_EARLY, ASK_GAS, ASK_QUANTITY, ASK_WALLETS, HELP,
};
use seadrop_sniper::config::{env_rpc_urls, read_config, BotError};
use seadrop_sniper::confirm::{stage_is_live, Preview};
use seadrop_sniper::hexdata::Address;
use seadrop_sniper::json::Json;
use seadrop_sniper::manifest::{
    file_checked, file_located, list_wallets, save_failed, ManifestEntry, UploadStep,
};
use seadrop_sniper::snipe::{SnipeError, SnipeOptions};
use seadrop_sniper::telegram::{
    answer_params, api_url, file_params, keyboard_params, message_params, next_offset, poll_failed,
    reply_result, update_id, updates_of, updates_params, username, PollStep,
};
use seadrop_sniper::uint::U256;
use seadrop_sniper::wizard::{parse_gas, parse_wallet_selection, Step};

const OWNER: i64 = 42;

fn text(value: &str) -> Json {
    Json::Text(value.to_owned())
}

fn object(members: Vec<(&str, Json)>) -> Json {
    Json::Object(members.into_iter().map(|(name, value)| (name.to_owned(), value)).collect())
}

fn chat(id: i64) -> Json {
    object(vec![("id", Json::Int(id))])
}

fn says(id: i64, words: &str) -> Json {
    object(vec![("message", object(vec![("chat", chat(id)), ("text", text(words))]))])
}

fn presses(id: i64, data: &str) -> Json {
    object(vec![(
        "callback_query",
        object(vec![
            ("id", text("press")),
            ("data", text(data)),
            ("message", object(vec![("chat", chat(id))])),
        ]),
    )])
}

fn uploads(id: i64, name: &str) -> Json {
    let document = object(vec![("file_name", text(name)), ("file_id", text("F1"))]);
    object(vec![("message", object(vec![("chat", chat(id)), ("document", document)]))])
}

fn bot() -> Bot {
    Bot::new(vec![OWNER, 7], "wallets.json".to_owned())
}

fn rpcs() -> Vec<String> {
    vec!["https://a.org".to_owned()]
}

fn told(actions: Vec<BotAction>, id: i64) -> String {
    assert_eq!(actions.len(), 1, "{actions:?}");
    match actions.into_iter().next().unwrap() {
        BotAction::Send { chat_id, text } => {
            assert_eq!(chat_id, id);
            text
        }
        other => panic!("{other:?}"),
    }
}

fn tell(bot: &mut Bot, words: &str) -> String {
    told(bot.handle_update(&says(OWNER, words), &rpcs()), OWNER)
}

fn after_press(bot: &mut Bot, data: &str) -> Vec<BotAction> {
    let mut actions = bot.handle_update(&presses(OWNER, data), &rpcs());
    match actions.remove(0) {
        BotAction::AnswerCallback { callback_id } => assert_eq!(callback_id, "press"),
        other => panic!("{other:?}"),
    }
    actions
}

fn buttons(row: &[Button]) -> Vec<(&str, &str)> {
    row.iter().map(|button| (button.label.as_str(), button.data.as_str())).collect()
}

fn to_confirm(bot: &mut Bot) -> SnipeOptions {
    assert_eq!(tell(bot, "/snipe"), ASK_COLLECTION);
    bot.handle_update(&says(OWNER, " my-drop "), &rpcs());
    assert_eq!(told(after_press(bot, "chain:base"), OWNER), ASK_QUANTITY);
    assert_eq!(tell(bot, "3"), ASK_WALLETS);
    assert_eq!(tell(bot, "2, 0"), ASK_GAS);
    assert_eq!(tell(bot, "0.05/0.01"), ASK_EARLY);
    let mut actions = bot.handle_update(&says(OWNER, "250"), &rpcs());
    assert_eq!(actions.len(), 1);
    match actions.remove(0) {
        BotAction::Preview { chat_id, wizard, options } => {
            assert_eq!(chat_id, OWNER);
            assert_eq!(wizard.step, Step::Confirm);
            assert_eq!(wizard.wallets, options.wallet_indices);
            options
        }
        other => panic!("{other:?}"),
    }
}

fn preview(start_time: u64) -> Preview {
    Preview {
        nft_contract: Address::parse("0xd8da6bf26964af9d7eed9e03e53415d37aa96045").unwrap(),
        chain_name: "base".to_owned(),
        price: U256::from(5_600_000_000_000_000u128),
        start_time,
        wallet_count: 4,
    }
}

#[test]
fn wallet_selection_parses_indices() {
    assert_eq!(parse_wallet_selection("0,1,2").unwrap(), vec![0, 1, 2]);
    assert_eq!(parse_wallet_selection("all").unwrap(), Vec::<usize>::new());
    assert_eq!(parse_wallet_selection(" 2 , 0 , 2 ").unwrap(), vec![2, 0]);
    assert!(parse_wallet_selection("x").is_err());
    assert!(parse_wallet_selection("").is_err());
}

#[test]
fn gas_parses_forms() {
    assert_eq!(parse_gas("auto").unwrap(), (None, None));
    assert_eq!(
        parse_gas("0.05/0.01").unwrap(),
        (
            Some(U256::from(50_000_000u128)),
            Some(U256::from(10_000_000u128))
        )
    );
    assert_eq!(
        parse_gas("0.05").unwrap(),
        (Some(U256::from(50_000_000u128)), None)
    );
    assert_eq!(
        parse_gas("/0.01").unwrap(),
        (None, Some(U256::from(10_000_000u128)))
    );
    assert!(parse_gas("nope").is_err());
}

#[test]
fn wallet_selection_replies_in_words() {
    assert_eq!(
        parse_wallet_selection("1, Two ,3").unwrap_err(),
        "Cannot parse `two` — send comma-separated indices or `all`."
    );
    assert_eq!(
        parse_wallet_selection(" , ").unwrap_err(),
        "Send at least one wallet index or `all`."
    );
    assert_eq!(parse_wallet_selection(" ALL ").unwrap(), Vec::<usize>::new());
    assert_eq!(parse_wallet_selection(",5,").unwrap(), vec![5]);
}

#[test]
fn a_selection_reads_back() {
    for text in ["2,0,10", " 7 ", "3 , 3,1", "+5,05"] {
        let selection = parse_wallet_selection(text).unwrap();
        let written: Vec<String> = selection.iter().map(usize::to_string).collect();
        assert_eq!(parse_wallet_selection(&written.join(",")).unwrap(), selection);
    }
}

#[test]
fn gas_replies_in_words() {
    assert_eq!(
        parse_gas("x/1").unwrap_err(),
        "Invalid max fee `x` — e.g. `0.05/0.01` or `auto`."
    );
    assert_eq!(
        parse_gas("1/x").unwrap_err(),
        "Invalid priority fee `x` — e.g. `0.05/0.01` or `auto`."
    );
    assert_eq!(parse_gas(" / ").unwrap_err(), "Send `max/priority` in gwei or `auto`.");
    assert_eq!(parse_gas("  ").unwrap(), (None, None));
    assert_eq!(parse_gas("AUTO").unwrap(), (None, None));
}

#[test]
fn a_stranger_is_ignored() {
    let mut bot = bot();
    let actions = bot.handle_update(&says(13, "/snipe"), &rpcs());
    assert!(matches!(actions.as_slice(), [BotAction::NoteStranger { chat_id: 13 }]));
    let actions = bot.handle_update(&presses(13, "fire:yes"), &rpcs());
    assert!(matches!(actions.as_slice(), [BotAction::AnswerCallback { .. }]));
    assert!(bot.wizards.is_empty() && bot.active.is_empty());
    assert!(bot.is_allowed(7));
    assert!(!bot.is_allowed(13));
}

#[test]
fn updates_without_a_message_are_ignored() {
    let mut bot = bot();
    assert!(bot.handle_update(&Json::Null, &rpcs()).is_empty());
    assert!(bot.handle_update(&object(vec![("update_id", Json::Int(1))]), &rpcs()).is_empty());
    assert_eq!(sender(&says(5, "x")), 5);
    assert_eq!(sender(&presses(6, "x")), 6);
    assert_eq!(sender(&Json::Null), 0);
    let silent = object(vec![("message", object(vec![("chat", chat(OWNER))]))]);
    assert!(bot.handle_update(&silent, &rpcs()).is_empty());
}

#[test]
fn commands_are_obeyed() {
    let mut bot = bot();
    assert_eq!(tell(&mut bot, "/help"), HELP);
    assert_eq!(tell(&mut bot, " /start now "), HELP);
    assert_eq!(tell(&mut bot, "/cancel"), "Wizard cancelled.");
    assert_eq!(tell(&mut bot, "/status"), "🟢 active snipe(s) in flight: 0\n🔴 idle");
    assert_eq!(tell(&mut bot, "/what"), "Unknown command — /help");
    assert_eq!(tell(&mut bot, "/"), "Unknown command — /help");
    assert_eq!(tell(&mut bot, "hello"), "No wizard active — send /snipe to start one.");
    let actions = bot.handle_update(&says(OWNER, "/wallets"), &rpcs());
    assert!(matches!(actions.as_slice(), [BotAction::ListWallets { chat_id: OWNER }]));
}

#[test]
fn the_wizard_asks_in_order() {
    let mut bot = bot();
    let options = to_confirm(&mut bot);
    assert_eq!(options.collection, "my-drop");
    assert_eq!(options.chain.as_deref(), Some("base"));
    assert_eq!(options.quantity, Some(3));
    assert_eq!(options.wallet_indices, Some(vec![2, 0]));
    assert_eq!(options.max_fee_per_gas, Some(U256::from(50_000_000u128)));
    assert_eq!(options.max_priority_fee_per_gas, Some(U256::from(10_000_000u128)));
    assert_eq!(options.early_fire_ms, 250);
    assert_eq!(options.gas_limit, 250_000);
    assert_eq!(options.key_count, 0);
    assert_eq!(options.wallets_file.as_deref(), Some("wallets.json"));
    assert_eq!(options.rpc_urls, rpcs());
    assert!(!options.fire_now);
    assert_eq!(
        tell(&mut bot, "more"),
        "Wizard already at confirm — press FIRE or send /cancel."
    );
}

#[test]
fn the_wizard_repeats_what_it_cannot_use() {
    let mut bot = bot();
    tell(&mut bot, "/snipe");
    let mut actions = bot.handle_update(&says(OWNER, "my-drop"), &rpcs());
    match actions.remove(0) {
        BotAction::SendKeyboard { chat_id, text, row } => {
            assert_eq!(chat_id, OWNER);
            assert_eq!(text, "Which chain?");
            assert_eq!(
                buttons(&row),
                vec![
                    ("Base", "chain:base"),
                    ("Ethereum", "chain:ethereum"),
                    ("Robinhood", "chain:robinhood"),
                ]
            );
        }
        other => panic!("{other:?}"),
    }
    assert_eq!(tell(&mut bot, "base"), "Use the chain buttons above.");
    after_press(&mut bot, "chain:ethereum");
    assert_eq!(tell(&mut bot, "0"), "Send a positive integer for quantity.");
    assert_eq!(tell(&mut bot, "many"), "Send a positive integer for quantity.");
    tell(&mut bot, "1");
    assert_eq!(
        tell(&mut bot, "x"),
        "Cannot parse `x` — send comma-separated indices or `all`."
    );
    tell(&mut bot, "all");
    assert_eq!(
        tell(&mut bot, "x"),
        "Invalid max fee `x` — e.g. `0.05/0.01` or `auto`."
    );
    tell(&mut bot, "auto");
    assert_eq!(tell(&mut bot, "/0.01"), "Unknown command — /help");
    assert_eq!(tell(&mut bot, "soon"), "Send a number of milliseconds or `0`.");
    assert_eq!(bot.wizards[&OWNER].step, Step::Early);
}

#[test]
fn a_late_chain_button_changes_nothing() {
    let mut bot = bot();
    to_confirm(&mut bot);
    assert_eq!(told(after_press(&mut bot, "chain:ethereum"), OWNER), ASK_QUANTITY);
    assert_eq!(bot.wizards[&OWNER].chain.as_deref(), Some("base"));
    assert_eq!(bot.wizards[&OWNER].step, Step::Confirm);
    assert!(after_press(&mut bot, "unknown").is_empty());
}

#[test]
fn fire_runs_the_snipe_and_counts_it() {
    let mut bot = bot();
    let shown = to_confirm(&mut bot);
    let mut actions = after_press(&mut bot, "fire:yes");
    assert_eq!(actions.len(), 2);
    match actions.remove(0) {
        BotAction::Send { chat_id, text } => {
            assert_eq!(chat_id, OWNER);
            assert_eq!(text, ARMING);
        }
        other => panic!("{other:?}"),
    }
    match actions.remove(0) {
        BotAction::Fire { chat_id, options } => {
            assert_eq!(chat_id, OWNER);
            assert_eq!(options.collection, shown.collection);
            assert_eq!(options.wallet_indices, shown.wallet_indices);
            assert_eq!(options.chain.as_deref(), Some("base"));
        }
        other => panic!("{other:?}"),
    }
    assert!(bot.wizards.is_empty());
    assert_eq!(bot.active_count(OWNER), 1);
    assert_eq!(tell(&mut bot, "/status"), "🟢 active snipe(s) in flight: 1\n🔴 idle");
    assert!(after_press(&mut bot, "fire:yes").is_empty());
    assert_eq!(bot.active_count(OWNER), 1);
    assert!(bot.can_take(&presses(OWNER, "fire:yes")));

    to_confirm(&mut bot);
    after_press(&mut bot, "fire:yes");
    assert_eq!(bot.active_count(OWNER), 2);
    assert!(bot.finish_snipe(OWNER, Ok(())).is_empty());
    assert_eq!(bot.active_count(OWNER), 1);
    let reply = bot.finish_snipe(OWNER, Err(SnipeError::NoWallets));
    assert_eq!(
        told(reply, OWNER),
        "❌ no wallet keys configured; pass --key or --wallets"
    );
    assert_eq!(bot.active_count(OWNER), 0);
    assert!(bot.active.is_empty());
}

#[test]
fn fire_needs_a_chain() {
    let mut bot = bot();
    assert!(bot.fire_snipe(OWNER, &rpcs()).is_empty());
    tell(&mut bot, "/snipe");
    assert!(bot.fire_snipe(OWNER, &rpcs()).is_empty());
    assert_eq!(bot.wizards[&OWNER].step, Step::Collection);
    assert!(after_press(&mut bot, "fire:yes").is_empty());
    assert!(bot.wizards.is_empty() && bot.active.is_empty());
}

#[test]
fn a_stale_fire_button_fires_nothing() {
    let mut bot = bot();
    to_confirm(&mut bot);
    tell(&mut bot, "/snipe");
    bot.handle_update(&says(OWNER, "other-drop"), &rpcs());
    after_press(&mut bot, "chain:base");
    assert_eq!(bot.wizards[&OWNER].step, Step::Quantity);
    assert!(after_press(&mut bot, "fire:yes").is_empty());
    assert!(bot.wizards.is_empty() && bot.active.is_empty());
}

#[test]
fn only_one_snipe_too_many_cannot_be_counted() {
    let mut bot = bot();
    to_confirm(&mut bot);
    bot.active.insert(OWNER, usize::MAX);
    assert!(!bot.can_take(&presses(OWNER, "fire:yes")));
    assert!(bot.can_take(&presses(OWNER, "fire:no")));
    assert!(bot.can_take(&presses(13, "fire:yes")));
    assert!(bot.can_take(&says(OWNER, "fire:yes")));
}

#[test]
fn cancel_drops_the_wizard() {
    let mut bot = bot();
    to_confirm(&mut bot);
    assert_eq!(
        told(after_press(&mut bot, "fire:no"), OWNER),
        "Cancelled — nothing was signed or broadcast."
    );
    assert!(bot.wizards.is_empty());
}

#[test]
fn chats_do_not_mix() {
    let mut bot = bot();
    to_confirm(&mut bot);
    bot.handle_update(&says(7, "/snipe"), &rpcs());
    bot.handle_update(&says(7, "/cancel"), &rpcs());
    assert_eq!(bot.wizards[&OWNER].step, Step::Confirm);
    assert_eq!(bot.wizards.len(), 1);
}

#[test]
fn the_confirmation_sums_up() {
    let mut bot = bot();
    to_confirm(&mut bot);
    let wizard = bot.wizards[&OWNER].clone();
    let mut actions = bot.show_confirm(OWNER, &wizard, Ok(preview(100)), 100, "0.0056");
    match actions.remove(0) {
        BotAction::SendKeyboard { chat_id, text, row } => {
            assert_eq!(chat_id, OWNER);
            assert_eq!(
                text,
                "🎯 Snipe preview — 🟢 live now\n\n\
                 📦 0xd8dA6BF26964aF9D7eEd9e03E53415D37aA96045\n\
                 ⛓️ base\n\
                 💰 price 5600000000000000 wei (0.0056 ETH)\n\
                 🗂 2 wallet(s) — indices [2, 0]\n\
                 ⛽ max 0.050 / priority 0.010 gwei\n\
                 🔥 early fire: 250 ms\n\n\
                 Confirm?"
            );
            assert_eq!(buttons(&row), vec![("✅ FIRE", "fire:yes"), ("❌ Cancel", "fire:no")]);
        }
        other => panic!("{other:?}"),
    }
    assert_eq!(bot.wizards[&OWNER].step, Step::Confirm);
}

#[test]
fn the_confirmation_knows_all_forms() {
    for (gas, told_gas) in [
        ("auto", "⛽ auto (chain estimate)\n"),
        ("1", "⛽ max 1.000 gwei / priority auto\n"),
        ("/2", "⛽ max auto / priority 2.000 gwei\n"),
    ] {
        let mut bot = bot();
        tell(&mut bot, "/snipe");
        bot.handle_update(&says(OWNER, "x"), &rpcs());
        after_press(&mut bot, "chain:base");
        tell(&mut bot, "1");
        tell(&mut bot, "all");
        tell(&mut bot, "auto");
        bot.handle_update(&says(OWNER, "0"), &rpcs());
        let (max, priority) = parse_gas(gas).unwrap();
        let wizard = bot.wizards.get_mut(&OWNER).unwrap();
        wizard.max_fee_per_gas = max;
        wizard.max_priority_fee_per_gas = priority;
        let wizard = bot.wizards[&OWNER].clone();
        let mut actions = bot.show_confirm(OWNER, &wizard, Ok(preview(101)), 100, "0");
        match actions.remove(0) {
            BotAction::SendKeyboard { text, .. } => {
                assert!(text.contains(told_gas), "{text}");
                assert!(text.contains("🗂 4 wallet(s) — all\n"), "{text}");
                assert!(text.contains("⏳ scheduled"), "{text}");
            }
            other => panic!("{other:?}"),
        }
    }
    assert!(stage_is_live(u64::MAX, i64::MAX as u64));
    assert!(!stage_is_live(u64::MAX, 5));
}

#[test]
fn a_failed_preview_drops_the_wizard() {
    let mut bot = bot();
    to_confirm(&mut bot);
    let wizard = bot.wizards[&OWNER].clone();
    let actions = bot.show_confirm(OWNER, &wizard, Err(SnipeError::NoPublicStage), 0, "");
    assert!(told(actions, OWNER).starts_with("❌ Cannot preview this snipe: collection has no public"));
    assert!(bot.wizards.is_empty());
    let actions = bot.show_confirm(OWNER, &wizard, Ok(preview(1)), 0, "");
    assert!(matches!(actions.as_slice(), [BotAction::SendKeyboard { chat_id: OWNER, .. }]));
    assert!(bot.wizards.is_empty());
}

#[test]
fn only_json_files_are_fetched() {
    let mut bot = bot();
    let mut actions = bot.handle_update(&uploads(OWNER, "Wallets.JSON"), &rpcs());
    match actions.remove(0) {
        BotAction::FetchFile { chat_id, file_id } => {
            assert_eq!(chat_id, OWNER);
            assert_eq!(file_id, "F1");
        }
        other => panic!("{other:?}"),
    }
    let actions = bot.handle_update(&uploads(OWNER, "wallets.txt"), &rpcs());
    assert_eq!(
        told(actions, OWNER),
        "📎 Send a wallets.json file (keys are never read back to chat)."
    );
}

fn entries() -> Vec<ManifestEntry> {
    vec![
        ManifestEntry {
            address: Address::parse("0xd8da6bf26964af9d7eed9e03e53415d37aa96045").unwrap(),
            quantity: 2,
        },
        ManifestEntry { address: Address { bytes: [0; 20] }, quantity: 1 },
    ]
}

const LINES: &str = "  0: `0xd8dA6BF26964aF9D7eEd9e03E53415D37aA96045` (qty 2)\n  1: `0x0000000000000000000000000000000000000000` (qty 1)\n";

#[test]
fn wallets_are_listed_without_keys() {
    assert_eq!(
        told(vec![list_wallets(OWNER, "w.json", Some(entries()))], OWNER),
        format!("🗂 w.json — 2 wallet(s):\n{LINES}")
    );
    assert_eq!(
        told(vec![list_wallets(OWNER, "w.json", Some(vec![]))], OWNER),
        "⚠️ w.json exists but has no wallets.\n\nGenerate with `opensea-mint wallets create` on the server, or upload a wallets.json here."
    );
    assert_eq!(
        told(vec![list_wallets(OWNER, "w.json", None)], OWNER),
        "⚠️ No manifest at w.json.\n\nGenerate one on the server (`opensea-mint wallets create --count N --output w.json`) or upload a wallets.json file here."
    );
}

fn replied(step: UploadStep) -> String {
    match step {
        UploadStep::Reply(action) => told(vec![action], OWNER),
        other => panic!("{other:?}"),
    }
}

#[test]
fn an_upload_goes_step_by_step() {
    let file = object(vec![("file_path", text("documents/file_1.json"))]);
    match file_located(OWNER, Ok(Some(&file))) {
        UploadStep::Download { file_path } => assert_eq!(file_path, "documents/file_1.json"),
        other => panic!("{other:?}"),
    }
    assert_eq!(
        replied(file_located(OWNER, Err("x".to_owned()))),
        "❌ Could not fetch file: x"
    );
    assert_eq!(
        replied(file_located(OWNER, Ok(Some(&Json::Null)))),
        "❌ Telegram returned no file path."
    );
    assert_eq!(replied(file_located(OWNER, Ok(None))), "❌ Telegram returned no file path.");
    assert_eq!(told(vec![save_failed(OWNER, "full")], OWNER), "❌ Could not save file: full");
}

fn saved(step: UploadStep) -> String {
    match step {
        UploadStep::Save { action } => told(vec![action], OWNER),
        other => panic!("{other:?}"),
    }
}

#[test]
fn only_a_readable_upload_is_saved() {
    assert_eq!(
        saved(file_checked(OWNER, "w.json", Ok(entries()))),
        format!("✅ Imported 2 wallet(s) to w.json:\n{LINES}")
    );
    assert_eq!(
        saved(file_checked(OWNER, "w.json", Ok(vec![]))),
        "⚠️ The file parsed but contains no wallets."
    );
    assert_eq!(
        replied(file_checked(OWNER, "w.json", Err("bad".to_owned()))),
        "❌ Invalid wallets.json: bad"
    );
}

fn config(token: Option<&str>, allowed: Option<&str>) -> Result<(String, Vec<i64>, String), BotError> {
    read_config(token.map(str::to_owned), allowed.map(str::to_owned), None)
        .map(|config| (config.token, config.allowed, config.wallets_file))
}

#[test]
fn the_environment_sets_the_bot_up() {
    assert_eq!(
        config(Some("T"), Some(" 5, -7 ,,5,+5")).unwrap(),
        ("T".to_owned(), vec![5, -7], "wallets.json".to_owned())
    );
    let named = read_config(
        Some("T".to_owned()),
        Some("1".to_owned()),
        Some("other.json".to_owned()),
    )
    .unwrap();
    assert_eq!(named.wallets_file, "other.json");
}

#[test]
fn a_bad_environment_is_told() {
    let missing_token = "BOT_TOKEN is not set — create one with @BotFather and add it to .env";
    assert_eq!(config(None, None).unwrap_err().message(), missing_token);
    assert_eq!(config(Some("  "), Some("1")).unwrap_err().message(), missing_token);
    assert_eq!(
        config(Some("T"), None).unwrap_err().message(),
        "ALLOWED_CHAT_IDS is not set — comma-separated numeric chat ids (find yours with @userinfobot)"
    );
    assert_eq!(
        config(Some("T"), Some(" , ")).unwrap_err().message(),
        "ALLOWED_CHAT_IDS contains no valid chat ids"
    );
    assert_eq!(
        config(Some("T"), Some("1, me ,x")).unwrap_err().message(),
        "invalid ALLOWED_CHAT_IDS entry: me"
    );
    assert_eq!(
        config(Some("T"), Some("9223372036854775808")).unwrap_err().message(),
        "invalid ALLOWED_CHAT_IDS entry: 9223372036854775808"
    );
    assert_eq!(
        config(Some("T"), Some("-9223372036854775808")).unwrap().1,
        vec![i64::MIN]
    );
    assert_eq!(BotError::Telegram("x".to_owned()).message(), "Telegram request failed: x");
    assert_eq!(BotError::Http.message(), "cannot construct the Telegram HTTP client");
    assert_eq!(
        BotError::Snipe(SnipeError::NoWallets).message(),
        "no wallet keys configured; pass --key or --wallets"
    );
}

#[test]
fn the_environment_names_endpoints() {
    assert_eq!(
        env_rpc_urls(Some(" a , ,b"), Some("c")),
        vec!["a".to_owned(), "b".to_owned()]
    );
    assert_eq!(env_rpc_urls(None, Some("c")), vec!["c".to_owned()]);
    assert!(env_rpc_urls(Some(""), Some("c")).is_empty());
    assert!(env_rpc_urls(None, None).is_empty());
}

#[test]
fn replies_are_granted_or_refused() {
    let granted = object(vec![("ok", Json::Bool(true)), ("result", Json::Int(5))]);
    assert_eq!(reply_result("getMe", &granted).unwrap().unwrap().as_i64(), Some(5));
    let empty = object(vec![("ok", Json::Bool(true))]);
    assert!(reply_result("getMe", &empty).unwrap().is_none());
    let refused = object(vec![("ok", Json::Bool(false)), ("description", text("Conflict: x"))]);
    let error = reply_result("getUpdates", &refused).unwrap_err();
    assert_eq!(error.message(), "Telegram API error: getUpdates: Conflict: x");
    let error = reply_result("getMe", &Json::Null).unwrap_err();
    assert_eq!(error.message(), "Telegram API error: getMe: unknown error");
}

#[test]
fn polling_stops_on_a_conflict_alone() {
    match poll_failed(&BotError::TelegramApi("getUpdates: Conflict: x".to_owned())) {
        PollStep::Stop { text } => {
            assert_eq!(text, "another bot instance is polling with this token — stop it first");
        }
        other => panic!("{other:?}"),
    }
    match poll_failed(&BotError::Telegram("Conflict".to_owned())) {
        PollStep::Retry { text, pause_ms } => {
            assert_eq!(
                text,
                "getUpdates failed: Telegram request failed: Conflict — retrying in 3s"
            );
            assert_eq!(pause_ms, 3_000);
        }
        other => panic!("{other:?}"),
    }
}

#[test]
fn updates_are_asked_for_behind_the_last_one() {
    let update = object(vec![("update_id", Json::Int(9))]);
    assert_eq!(update_id(&update), Some(9));
    assert_eq!(next_offset(&update, 3), 10);
    assert_eq!(next_offset(&Json::Null, 3), 3);
    let list = Json::Array(vec![update]);
    assert_eq!(updates_of(Some(&list)).unwrap().len(), 1);
    assert!(updates_of(Some(&Json::Null)).is_none());
    assert!(updates_of(None).is_none());
    assert_eq!(username(Some(&object(vec![("username", text("bot"))]))), "bot");
    assert_eq!(username(None), "?");
}

fn member<'a>(value: &'a Json, name: &str) -> &'a Json {
    value.get(name).unwrap()
}

#[test]
fn requests_have_their_parameters() {
    assert_eq!(api_url("T", "getMe"), "https://api.telegram.org/botT/getMe");
    let params = message_params(5, "hi");
    assert_eq!(member(&params, "chat_id").as_i64(), Some(5));
    assert_eq!(member(&params, "text").as_str(), Some("hi"));
    assert_eq!(member(&params, "disable_web_page_preview").as_bool(), Some(true));
    let row = vec![Button { label: "A".to_owned(), data: "a".to_owned() }];
    let params = keyboard_params(5, "hi", &row);
    let rows = member(member(&params, "reply_markup"), "inline_keyboard").as_array().unwrap();
    assert_eq!(rows.len(), 1);
    let first = &rows[0].as_array().unwrap()[0];
    assert_eq!(member(first, "text").as_str(), Some("A"));
    assert_eq!(member(first, "callback_data").as_str(), Some("a"));
    let params = updates_params(-1);
    assert_eq!(member(&params, "timeout").as_i64(), Some(25));
    assert_eq!(member(&params, "offset").as_i64(), Some(-1));
    let kinds = member(&params, "allowed_updates").as_array().unwrap();
    assert_eq!(kinds[0].as_str(), Some("message"));
    assert_eq!(kinds[1].as_str(), Some("callback_query"));
    assert_eq!(member(&answer_params("c"), "callback_query_id").as_str(), Some("c"));
    assert_eq!(member(&file_params("f"), "file_id").as_str(), Some("f"));
}

#[test]
fn help_lists_the_commands() {
    assert!(HELP.starts_with("🦈 SeaDrop sniper bot\n\nCommands:\n/wallets — list"));
    assert!(HELP.ends_with("\n/help — this message\n\n📎 Import a manifest by uploading a wallets.json file — keys are saved server-side and never shown in chat."));
}
