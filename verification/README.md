# pullix

A pull-based deployment daemon for NixOS flakes. At an interval it fetches a
git repository, looks where a *test* and a *prod* reference stand, and deploys
the one whose turn it is: test if it is ahead of prod, else prod. A commit that
was tried, with success or not, is not tried again.

The decisions live in the library under `src/`, written in Verus and proved
against their contracts. Whatever touches the world (git, nix, files, HTTP,
telemetry) is in `app/`: it asks the library for the next step, carries it out,
and reports back what happened.

| module          | what it decides                                              |
|-----------------|--------------------------------------------------------------|
| `poll`          | the order of a poll, and when the next one begins            |
| `deploy`        | which commit is due, and the history that tells              |
| `flake`         | where a flake is fetched from, and what nix builds           |
| `sync`          | how the repository is brought up to date                     |
| `search`        | which commit a revision or a reference stands for            |
| `distance`      | by how many commits one commit is ahead of another           |
| `credentials`   | which credentials a git server is offered                    |
| `nix_commands`  | the commands of a deployment, from what the last one printed |
| `webhooks`      | the requests that follow a deployment                        |
| `systemd`       | whether the daemon's unit has changed                        |
| `metrics`, `observability` | what is exported, and where to                    |
| `config`, `git`, `text` | what the others share                                |

Each module states its laws as public proof functions next to the functions
they are about: for instance that a processed commit is never deployed again,
that all local tags are deleted before a fetch, or that the GitHub token is
offered to no host but `github.com`.

The history is saved to `state.json` in the configured directory. However few
entries `keep_last` asks for, trimming it forgets no attempt.

The daemon reads its configuration from the file that `PULLIX_CONFIG` names.
