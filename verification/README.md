# af

`af` is a personal command-line helper: it clones project repositories
(optionally converting HTTP(S) URLs to SSH), picks an installed IDE to open
them with, and opens a dotfiles directory in an IDE.

The library under `src/` holds the logic, written in Verus with contracts
that Verus proves:

- `repository` — reading repository URLs in SSH and HTTP(S) form, their
  canonical and SSH URLs, and the round-trip laws between them.
- `repo` — the SSH repository a clone targets, and the IDE chosen from the
  languages that the repository's host reports.
- `ides` — the supported IDEs, launchers, and the selection rules for a
  cloned project and for the dotfiles.
- `discovery`, `paths`, `order` — the launcher candidates looked for on
  `PATH` and in `/Applications`, their deduplication and listing order.
- `label` — the one-line label under which a launcher is listed.
- `clone` — what happens to an existing destination, which credentials are
  offered, which URL is cloned and where.
- `browser` — where browsers are looked for and how one is opened.
- `text` — character-level helpers with exact specifications.

`app/` is the program around it: argument parsing, the environment, the file
system, processes, prompts, progress bars, Git and the GitHub API.
