# sme_pro

The rules of an offline-first business system for small shops, as a verified
Rust library: money, stock batches, the till, invoices, debts, imports,
licences, roles, the web interface's routes and the schema's migrations.
Every function in `src/` has a contract. Verus proves it, except for the small
functions that only call another crate or the standard library: theirs is
believed.

- `src/` — the library. It holds no database connection and opens no socket:
  callers hand it the rows they read, and it answers with what to write.
- `tests/` — the library from outside, on concrete values.
- `app/` — the server and the command line: SQLite, HTTP, files, the clock,
  payment and message services, and the arithmetic on real numbers.

Where the library calls another crate (dates, hashing, signatures, encodings,
spreadsheets), the call stands in a small function marked `external_body`
whose comment says what is taken on trust. The spreadsheet reader is meant to be
built without overflow checks, as release builds are: with them, some damaged
files stop it.

## Running the server

- `SME_MODULES_DIR` names the directory with the definitions of the eight
  modules, one JSON file each; without it, `modules` under the working
  directory is read.
- One assistant provider, the one whose key is in `ANTHROPIC_API_KEY`, goes by
  names that are configured: `AI_OWN_KEY_NAME` is the provider's name, as it
  stands in the stored settings `ai_provider`, `ai_<name>_api_key` and
  `ai_<name>_model`; `AI_OWN_API_NAME` is how its API is called in messages;
  `AI_OWN_MODEL` is the model that is asked where none is stored. A database
  that already holds settings for this provider keeps them under the name that
  the provider gives its models: set `AI_OWN_KEY_NAME` to it, and
  `AI_OWN_MODEL` to one of those models.
