# ravault_ui

The state and update logic of a desktop wallet for the Radix ledger, verified with Verus.

Every screen of the interface is a value with an `update` (or `process`) function that takes a
message and returns what is left for the caller to do: an action such as "download these
images", "submit this transfer" or "copy this text". The caller performs the action (network,
disk, clipboard, rendering) and sends the result back as another message. The library holds no
I/O and no rendering; what it decides is stated in its contracts and proved.

Layout of `src/`:

- `keyed` — an insertion-ordered map keyed by text, with its invariant (no key twice) and a
  view as a `Map`.
- `model` — addresses, accounts, resources, assets, personas.
- `app_data` — the wallet data in memory and how sync results, disk reads and icons merge
  into it.
- `setup`, `login` — creating or restoring a wallet (recovery phrase checked with `bip39`) and
  unlocking it.
- `accounts` — the accounts tab: accounts, tokens, NFT collections and NFT details.
- `transaction` — composing a transfer: recipients, assets and amounts, the request that is
  signed.
- `overlays` — the add-account and receive dialogs.
- `personas`, `history`, `settings`, `app_view`, `common`, `update` — the other tabs and the
  routing of messages.
- `secret`, `text` — passwords wiped with `zeroize`, and text helpers.

`app/` holds what stays outside: colour arithmetic (floating point), parsing done by the
standard library or by the ledger's decimal type, and the checks that the library's
preconditions ask of callers.
