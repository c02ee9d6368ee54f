# vpsguard

Configure and harden a Linux VPS from one declarative `vpsguard.toml`:
SSH hardening, an nftables firewall, users and keys, fail2ban, automatic
updates, system settings, monitoring, Docker, PostgreSQL, Redis, Caddy,
Tailscale and app deploys. Every change is previewed, idempotent and
reversible.

## Layout

- `src/` is the library, verified with Verus. Each module decides from what
  was observed on the host (file contents, command results) and returns the
  steps to perform together with the report of a successful run; the
  contracts state those decisions exactly, over the mathematical views of
  the values. Laws that span several calls (rendering is idempotent, a dry
  run is inert, a compliant module applies nothing, rollback restores the
  snapshot apply took, the firewall hash ignores rule order, quoting reads
  back through the shell, ...) are public proof functions named `law_*`.
  Where an install changes what a module then manages (the Caddyfile, the
  automatic-update settings, the PostgreSQL databases), the module hands
  out the install steps first; the program runs them, observes the host
  again and asks the module for the rest.
  Reading the configuration text (parsing the TOML, layering a
  `recipe = "name"` preset under the user's keys) is `document::resolve_tree`.
- `app/` is the command-line program around it: argument parsing, turning
  the resolved document into the configuration's types, running commands and touching files locally or
  over SSH, the lockout guard and the SQLite history.
- `tests/` exercises the library on concrete values.
