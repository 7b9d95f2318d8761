# protonmail_client

The verified core of a desktop mail client for ProtonMail accounts served by a local
Hydroxide IMAP/SMTP bridge, written in Verus.

`src/` is the library; every function in it is verified against its contract:

- `engine`: automation-rule evaluation (conditions, priority order) and its laws;
- `automation`: creating and updating rules, planning rule actions, rule runs;
- `classify`: keyword heuristics, the local-model slot, the language-model prompt and
  reply handling;
- `flags`: the stored spelling of IMAP flags, flag lists stored as JSON, and their laws;
- `compose`: new messages, replies and forwards, with address checks;
- `message`: reading raw messages (through mail-parser) into stored records;
- `sync`: fetch ranges, download batches, the per-mailbox sync watermark, mailbox ids;
- `mail`, `session`, `hydroxide`: message bodies, folders, credentials, the sync loop's
  steps and the bridge launcher;
- `schema`, `text`, `json`, `ids`, `dates`: records, character-level text operations,
  JSON of string lists and model replies, identifiers, time and shown dates.

`app/` is the `pm-cli` program around it: SQLite storage (sqlx), IMAP (async-imap),
SMTP (lettre), the language-model HTTP call (reqwest), the bridge process and the
background synchronisation service.
