# keymgr

A local key manager: secrets (API keys, tokens, passwords) are stored encrypted with
AES-256-GCM under a key derived with Argon2id from one master password, and listed only
as masked previews.

- `src/` is the verified library:
  - `mask` — the masked preview of a value, stated character by character;
  - `crypto` — password checking, key derivation, encryption and decryption, with the
    round trip (a stored pair decrypts to the value it was made from) in the contracts;
  - `auth` — unlocking with the master password and confirming a new one;
  - `vault` — adding, finding, changing, removing and re-encrypting keys by name, and
    the listing order;
  - `listing` — the listing lines;
  - `store` — where the data files live;
  - `confirm` — the yes/no answer to a deletion;
  - `text`, `model`, `error` — string facts, records and errors.
- `app/` is the command-line program: argument parsing, password prompts, the JSON files
  and printing.
- `tests/` exercises the library on concrete values.
