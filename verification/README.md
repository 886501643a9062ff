# Vault

A Bitwarden client for the terminal whose logic is verified with Verus: the
cryptographic envelopes, the vault model, the agent that holds the unwrapped
key, the client of the server, the messages between agent and command line, and
the commands themselves.

## Layout

- `src/` is the verified library.
  - `vault_core` — envelopes (`EncString`), key derivation, items, organization
    keys, one-time passwords, password generation, encrypted exports.
  - `vault_store` — the encrypted cache of a synced vault.
  - `vault_api` — base URLs, requests to the server and what its answers come
    to, the hybrid key exchange.
  - `vault_ipc` — messages, frames and the path of the socket.
  - `vault_agent` — the agent: unlocking, PINs, sessions, look-up, changes, the
    clipboard, and what each request leads to.
  - `vault_cli` — settings, commands and what they tell.
  - `vault_theme` — colors.
  - `text`, `text_map`, `clock`, `crypto` — what the rest is built on. Calls
    into other crates stand behind small functions whose contracts name their
    results; what is assumed of each is said above it.
- `app/` is the program around the library: sockets, HTTP, files, the keyring,
  the clipboard and the terminal.
- `tests/` runs the library.

## How the agent is put together

The agent's state is changed by functions of the library alone. A request is
either answered at once or leads to a piece of work at the server or on disk;
the program does the work and hands the outcome to the function that answers.
What the program cannot influence, such as the time or random bytes, comes in
as an argument or is bounded by what holds of every outcome.
