//! The wallets file: what is told of it, and how a new one is taken.

use vstd::prelude::*;

use crate::actions::{message, BotAction, Effect};
use crate::hexdata::{checksum_text, Address};
use crate::json::{string_member, text_member, Json};
use crate::snipe::prefixed;
use crate::text::{decimal, to_decimal};

verus! {

/// An entry of the wallets file, without its key.
#[derive(Clone, Copy, Debug)]
pub struct ManifestEntry {
    /// The wallet's address.
    pub address: Address,
    /// How many tokens it mints, unless asked otherwise.
    pub quantity: u64,
}

/// The line about one wallet.
pub open spec fn entry_line(index: nat, entry: ManifestEntry) -> Seq<char> {
    "  "@ + decimal(index) + ": `"@ + checksum_text(entry.address@) + "` (qty "@ + decimal(
        entry.quantity as nat,
    ) + ")\n"@
}

/// The lines about all wallets.
pub open spec fn entry_lines(entries: Seq<ManifestEntry>) -> Seq<char>
    decreases entries.len(),
{
    if entries.len() == 0 {
        Seq::empty()
    } else {
        entry_lines(entries.drop_last()) + entry_line((entries.len() - 1) as nat, entries.last())
    }
}

/// Appends the lines about all wallets to a text.
fn append_entries(text: &mut String, entries: &Vec<ManifestEntry>)
    ensures
        final(text)@ == old(text)@ + entry_lines(entries@),
{
    let ghost head = text@;
    let mut i: usize = 0;
    assert(entries@.take(0) == Seq::<ManifestEntry>::empty());
    assert(text@ == head + entry_lines(entries@.take(0)));
    while i < entries.len()
        invariant
            i <= entries@.len(),
            text@ == head + entry_lines(entries@.take(i as int)),
        decreases entries@.len() - i,
    {
        let ghost before = text@;
        let ghost next = entries@.take(i + 1);
        assert(next.drop_last() == entries@.take(i as int));
        assert(next.last() == entries@[i as int]);
        let entry = entries[i];
        text.append("  ");
        text.append(to_decimal(i as u128).as_str());
        text.append(": `");
        text.append(entry.address.to_text().as_str());
        text.append("` (qty ");
        text.append(to_decimal(entry.quantity as u128).as_str());
        text.append(")\n");
        assert(text@ == before + entry_line(i as nat, entry));
        i += 1;
        assert(text@ == head + entry_lines(next));
    }
    assert(entries@.take(i as int) == entries@);
}

/// What `/wallets` answers.
pub open spec fn wallets_text(wallets_file: Seq<char>, loaded: Option<Seq<ManifestEntry>>) -> Seq<char> {
    match loaded {
        Some(entries) => if entries.len() == 0 {
            "⚠️ "@ + wallets_file
                + " exists but has no wallets.\n\nGenerate with `opensea-mint wallets create` on the server, or upload a wallets.json here."@
        } else {
            "🗂 "@ + wallets_file + " — "@ + decimal(entries.len()) + " wallet(s):\n"@ + entry_lines(
                entries,
            )
        },
        None => "⚠️ No manifest at "@ + wallets_file
            + ".\n\nGenerate one on the server (`opensea-mint wallets create --count N --output "@
            + wallets_file + "`) or upload a wallets.json file here."@,
    }
}

/// Answers `/wallets`, from what the wallets file holds; `None` where it cannot be read.
pub fn list_wallets(chat_id: i64, wallets_file: &str, loaded: Option<Vec<ManifestEntry>>) -> (action:
    BotAction)
    ensures
        action@ == Effect::Send(
            chat_id,
            wallets_text(
                wallets_file@,
                match loaded {
                    Some(entries) => Some(entries@),
                    None => None,
                },
            ),
        ),
{
    match loaded {
        Some(entries) => {
            if entries.len() == 0 {
                let mut text = prefixed("⚠️ ", wallets_file);
                text.append(
                    " exists but has no wallets.\n\nGenerate with `opensea-mint wallets create` on the server, or upload a wallets.json here.",
                );
                return message(chat_id, text.as_str());
            }
            let mut text = prefixed("🗂 ", wallets_file);
            text.append(" — ");
            text.append(to_decimal(entries.len() as u128).as_str());
            text.append(" wallet(s):\n");
            append_entries(&mut text, &entries);
            message(chat_id, text.as_str())
        },
        None => {
            let mut text = prefixed("⚠️ No manifest at ", wallets_file);
            text.append(
                ".\n\nGenerate one on the server (`opensea-mint wallets create --count N --output ",
            );
            text.append(wallets_file);
            text.append("`) or upload a wallets.json file here.");
            message(chat_id, text.as_str())
        },
    }
}

/// How to go on with an uploaded file.
#[derive(Debug)]
pub enum UploadStep {
    /// Tell the chat, and that is all.
    Reply(BotAction),
    /// Fetch the file. The wallets file stays as it is.
    Download {
        /// Where Telegram keeps the file.
        file_path: String,
    },
    /// The fetched file holds wallets that can be read: save it in place of the wallets file.
    Save {
        /// What the chat is told once it is saved.
        action: BotAction,
    },
}

/// The contents of the wallets file after a step, with what was fetched.
pub open spec fn file_after(step: UploadStep, kept: Seq<u8>, fetched: Seq<u8>) -> Seq<u8> {
    match step {
        UploadStep::Save { action: _ } => fetched,
        _ => kept,
    }
}

/// Is `step` what follows once Telegram has told where the file is?
pub open spec fn is_located_step(
    chat_id: i64,
    located: Result<Option<&Json>, String>,
    step: UploadStep,
) -> bool {
    match located {
        Err(error) => step matches UploadStep::Reply(action) && action@ == Effect::Send(
            chat_id,
            "❌ Could not fetch file: "@ + error@,
        ),
        Ok(file) => {
            let path = match file {
                Some(value) => string_member(Some(*value), "file_path"@),
                None => None,
            };
            match path {
                Some(text) => step matches UploadStep::Download { file_path } && file_path@ == text,
                None => step matches UploadStep::Reply(action) && action@ == Effect::Send(
                    chat_id,
                    "❌ Telegram returned no file path."@,
                ),
            }
        },
    }
}

/// Is `step` what follows once the fetched file has been read? Only a file that can be read is
/// saved.
pub open spec fn is_checked_step(
    chat_id: i64,
    wallets_file: Seq<char>,
    loaded: Result<Vec<ManifestEntry>, String>,
    step: UploadStep,
) -> bool {
    &&& loaded matches Err(error) ==> (step matches UploadStep::Reply(action) && action@
        == Effect::Send(chat_id, "❌ Invalid wallets.json: "@ + error@))
    &&& loaded matches Ok(entries) ==> (step matches UploadStep::Save { action } && action@
        == Effect::Send(chat_id, import_text(wallets_file, Ok(entries@))))
}

/// Goes on once Telegram has told where the file is; `Err` tells why it did not.
pub fn file_located(chat_id: i64, located: Result<Option<&Json>, String>) -> (step: UploadStep)
    ensures
        is_located_step(chat_id, located, step),
{
    match located {
        Err(error) => UploadStep::Reply(
            message(chat_id, prefixed("❌ Could not fetch file: ", error.as_str()).as_str()),
        ),
        Ok(Some(file)) => match text_member(file, "file_path") {
            Some(text) => UploadStep::Download { file_path: text.to_owned() },
            None => UploadStep::Reply(message(chat_id, "❌ Telegram returned no file path.")),
        },
        Ok(None) => UploadStep::Reply(message(chat_id, "❌ Telegram returned no file path.")),
    }
}

/// Tells that a file could not be saved.
pub fn save_failed(chat_id: i64, error: &str) -> (action: BotAction)
    ensures
        action@ == Effect::Send(chat_id, "❌ Could not save file: "@ + error@),
{
    message(chat_id, prefixed("❌ Could not save file: ", error).as_str())
}

/// What is told of a fetched file: what it holds, or why it cannot be read.
pub open spec fn import_text(
    wallets_file: Seq<char>,
    loaded: Result<Seq<ManifestEntry>, Seq<char>>,
) -> Seq<char> {
    match loaded {
        Ok(entries) => if entries.len() == 0 {
            "⚠️ The file parsed but contains no wallets."@
        } else {
            "✅ Imported "@ + decimal(entries.len()) + " wallet(s) to "@ + wallets_file + ":\n"@
                + entry_lines(entries)
        },
        Err(error) => "❌ Invalid wallets.json: "@ + error,
    }
}

/// Goes on once the fetched file has been read, before it is saved: `loaded` is what it holds, or why
/// it cannot be read.
pub fn file_checked(
    chat_id: i64,
    wallets_file: &str,
    loaded: Result<Vec<ManifestEntry>, String>,
) -> (step: UploadStep)
    ensures
        is_checked_step(chat_id, wallets_file@, loaded, step),
{
    match loaded {
        Ok(entries) => {
            if entries.len() == 0 {
                let action = message(chat_id, "⚠️ The file parsed but contains no wallets.");
                return UploadStep::Save { action };
            }
            let mut text = prefixed("✅ Imported ", to_decimal(entries.len() as u128).as_str());
            text.append(" wallet(s) to ");
            text.append(wallets_file);
            text.append(":\n");
            append_entries(&mut text, &entries);
            UploadStep::Save { action: message(chat_id, text.as_str()) }
        },
        Err(error) => UploadStep::Reply(
            message(chat_id, prefixed("❌ Invalid wallets.json: ", error.as_str()).as_str()),
        ),
    }
}

/// An upload is validated before it is saved: neither finding the file nor a file that cannot be
/// read changes the wallets file, and the chat is told of the latter.
pub proof fn law_bad_upload_keeps_wallets(
    chat_id: i64,
    wallets_file: Seq<char>,
    located: Result<Option<&Json>, String>,
    error: String,
    first: UploadStep,
    second: UploadStep,
    kept: Seq<u8>,
    fetched: Seq<u8>,
)
    requires
        is_located_step(chat_id, located, first),
        is_checked_step(chat_id, wallets_file, Err(error), second),
    ensures
        file_after(first, kept, fetched) == kept,
        file_after(second, kept, fetched) == kept,
        second matches UploadStep::Reply(action) && action@ == Effect::Send(
            chat_id,
            "❌ Invalid wallets.json: "@ + error@,
        ),
{
}

/// The wallets are told in the order of the file, one line each, with its index, address and
/// quantity; and nothing else of them is told.
pub proof fn law_wallet_lines(entries: Seq<ManifestEntry>, next: ManifestEntry)
    ensures
        entry_lines(Seq::empty()) == Seq::<char>::empty(),
        entry_lines(entries.push(next)) == entry_lines(entries) + "  "@ + decimal(entries.len())
            + ": `"@ + checksum_text(next.address@) + "` (qty "@ + decimal(next.quantity as nat)
            + ")\n"@,
{
    assert(entries.push(next).drop_last() == entries);
    assert(entry_lines(entries.push(next)) == entry_lines(entries) + entry_line(
        entries.len(),
        next,
    ));
}

/// What is told of the wallets file: its name, how many wallets it holds, and their lines.
pub proof fn law_wallets_text(wallets_file: Seq<char>, entries: Seq<ManifestEntry>)
    ensures
        entries.len() > 0 ==> wallets_text(wallets_file, Some(entries)) == "🗂 "@ + wallets_file
            + " — "@ + decimal(entries.len()) + " wallet(s):\n"@ + entry_lines(entries),
        entries.len() == 0 ==> wallets_text(wallets_file, Some(entries)) == "⚠️ "@ + wallets_file
            + " exists but has no wallets.\n\nGenerate with `opensea-mint wallets create` on the server, or upload a wallets.json here."@,
        wallets_text(wallets_file, None) == "⚠️ No manifest at "@ + wallets_file
            + ".\n\nGenerate one on the server (`opensea-mint wallets create --count N --output "@
            + wallets_file + "`) or upload a wallets.json file here."@,
        entries.len() > 0 ==> import_text(wallets_file, Ok(entries)) == "✅ Imported "@ + decimal(
            entries.len(),
        ) + " wallet(s) to "@ + wallets_file + ":\n"@ + entry_lines(entries),
{
}

/// A file that can be read is saved in place of the old one, whatever it holds, and the chat is told
/// what it holds.
pub proof fn law_good_upload_replaces_wallets(
    chat_id: i64,
    wallets_file: Seq<char>,
    entries: Vec<ManifestEntry>,
    step: UploadStep,
    kept: Seq<u8>,
    fetched: Seq<u8>,
)
    requires
        is_checked_step(chat_id, wallets_file, Ok(entries), step),
    ensures
        file_after(step, kept, fetched) == fetched,
        step matches UploadStep::Save { action } && action@ == Effect::Send(
            chat_id,
            if entries@.len() == 0 {
                "⚠️ The file parsed but contains no wallets."@
            } else {
                "✅ Imported "@ + decimal(entries@.len()) + " wallet(s) to "@ + wallets_file
                    + ":\n"@ + entry_lines(entries@)
            },
        ),
{
}

/// A file is fetched from where Telegram says that it is, and not fetched where Telegram does not
/// say.
pub proof fn law_upload_is_fetched_from_its_path(
    chat_id: i64,
    file: &Json,
    error: String,
    step: UploadStep,
)
    ensures
        is_located_step(chat_id, Ok(Some(file)), step) ==> (string_member(
            Some(*file),
            "file_path"@,
        ) matches Some(path) ==> (step matches UploadStep::Download { file_path } && file_path@
            == path)),
        is_located_step(chat_id, Ok(Some(file)), step) && string_member(
            Some(*file),
            "file_path"@,
        ) is None ==> (step matches UploadStep::Reply(action) && action@ == Effect::Send(
            chat_id,
            "❌ Telegram returned no file path."@,
        )),
        is_located_step(chat_id, Err(error), step) ==> (step matches UploadStep::Reply(action)
            && action@ == Effect::Send(chat_id, "❌ Could not fetch file: "@ + error@)),
{
}

} // verus!
