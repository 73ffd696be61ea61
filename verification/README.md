# ai_session_manager

Keeps AI coding-assistant transcripts in a git repository shared by several
devices: it finds the sessions on this device, uploads them with editable
metadata, and restores a session on another device with its working
directory remapped.

- `src/` is the verified library, each function with its contract: turning
  a transcript's bytes into records, one parsed JSON document per line
  (`records`, which calls `serde_json` through trusted wrappers);
  summarising transcripts (`scan_claude`, `scan_codex`, over a `tree` of
  such records); path remapping (`paths`); rewriting a whole transcript for
  a new working directory and writing it back as JSON lines (`restore`);
  the repository layout and its last-writer-wins metadata rule
  (`syncrepo`); what an upload does with each session, and how many it
  writes (`sync`); and the git conversations as state machines (`gitcli`).
  `text` and `json` hold the string and JSON-document operations they share.
- `app/` is the thin layer around it: reading and writing files, listing
  directories, running git, the clock, the home directory and the JSON
  forms of the settings and metadata files.
- `tests/` exercise the library on concrete values.
