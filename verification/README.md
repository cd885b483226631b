# seadrop_sniper

Mints from a public `SeaDrop` stage the moment it opens, started by a program or from a Telegram
chat.

- `src/` is the library: every decision of the sniper, verified with Verus. It reads no network, no
  file and no key; it says what to read, sign or send next and takes the outcome.
- `app/` connects the library to HTTP, Telegram, the clock and the file system. The chain gateway,
  the signer and the wallets file come from the host through the traits of `app/services.rs`.
- `tests/` runs the library on concrete values, with the real outside crates.

What the library takes from other crates (256-bit arithmetic, hashing, ABI coding, URL parsing, JSON
text) stands behind small functions marked `external_body`, each with its claim in the doc comment.
