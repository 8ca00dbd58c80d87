# psht

`psht` deploys apps to a host that runs them in Incus containers and joins them to a
tailnet. This crate is its logic, written in Verus: every function under `src/` is proved
to meet the contract in its header.

- `src/` is the library. The steps of a deploy, of a wait for a busy container, of a
  bootstrap or of an upgrade are machines: a function from a state and what became of a
  step to the next state. Whoever runs one carries the steps out and hands back what came
  of them.
- `app/` carries them out: the command line, files, processes and the network. The
  container runtime, the tailnet's interface and the database stand behind the two traits
  of `app/server.rs`.
- `tests/` runs the library on concrete values.

| Part | Modules |
| --- | --- |
| Texts and notations | `text`, `split`, `number`, `order`, `table`, `shell`, `json`, `tomltree`, `paths` |
| Names and records | `app_name`, `app_state`, `runtime`, `rows`, `lock`, `intent` |
| Deploys | `deploy`, `blue_green`, `in_place`, `progress`, `git`, `failure`, `fingerprint`, `scripts`, `env`, `env_command` |
| Containers | `blocked`, `quiet_wait`, `cleanup`, `power`, `health`, `profile`, `storage`, `caddy` |
| Tailnet | `tailscale`, `tailnet`, `hostname`, `repair` |
| The host | `host`, `bootstrap`, `setup`, `doctor`, `provide`, `release`, `stats` |
| The workstation | `cli`, `project`, `update` |

What the proofs rest on beyond Verus: `serde_json` and `toml` read and write as the
functions marked `external_body` in `json.rs`, `tomltree.rs` and `env.rs` say, and
`String::push` appends its character, as `text.rs` says.
