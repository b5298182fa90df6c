# wf

A terminal dashboard for a directory full of git repositories. Four tabs:

- **Projects**: the repositories below the projects directory, with branch,
  commits ahead and behind, changes and last commit; Enter checks one.
- **Secrets**: files that look as if they hold passwords or keys.
- **Hindsight**: the local memory service: whether it runs, its numbers and live
  metrics, starting and stopping it, and the sweep of stale memories.
- **Backup**: the local backups, and a run of the backup script.

Without a screen: `wf --list`, `wf --secrets`, `wf --hindsight`.

## Layout

`src/` is a library verified with Verus. It holds the logic of the program and
states in contracts what each part of it comes to:

| module | what it decides |
|---|---|
| `git` | which directories are repositories, their health and their order |
| `secrets` | which files and lines look like secrets |
| `hindsight` | what the service's replies say, and which memories are stale |
| `service` | the steps of starting and of stopping the service |
| `metrics`, `models` | the live metrics, and the work of the local models |
| `backup`, `clock`, `watch` | backups, the time of day, when to build anew |
| `theme` | themes and settings |
| `dashboard` | what keys and news do |
| `screen`, `layout` | what the screen shows, and where |
| `headless` | what is printed without a screen |
| `json`, `command`, `text`, `order`, `seqs` | what the others are made of |

Public proof functions state what holds across functions: that the service is
stopped and memories are swept only after a confirmation, that any other key
cancels, that observations are never swept, that settings are read back as they
were saved, and more.

`app/` is the program around it: it runs commands, reads the disk, paints the
screen and waits for keys. `tests/` runs the library on given values.

Where the library calls another crate, or a function of the standard library
that has no specification, a comment above the call says what is taken on trust.
