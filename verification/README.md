# sub2api_operator

An operator's toolkit for a subscription gateway, in verified Rust. It drives the gateway through
its administration interface: it lists accounts, finds those whose upstream authorisation was
refused, and gives them new credentials.

## Layout

- `src/` is the library. Every function states in its contract what it returns or changes, and
  Verus proves it. What is asked of a service is a `Request` value, what comes back a `Reply`; where
  work alternates between requests and decisions, the decisions are a small state machine
  (`PlanRun`, `OnceRun`, `GroupRun`, `BindRun`, `OAuthRun`, `CodeWait`, `OAuthFlow`, `Poll`).
- `app/` is the program around it: the command line, the network, the browser, the store and the
  local page. It performs what the library asks for and hands back what happened.
- `tests/` runs the library on concrete values.

## Modules

| module | what it decides |
| --- | --- |
| `text` | trimming, searching, splitting, numerals and the order of texts |
| `json` | documents, their model, and printing; parsing and quoting are `serde_json`'s |
| `http` | requests and replies as values |
| `client` | the gateway: login, second factor, refreshing a token once, paging |
| `mail` | the mailbox service: binding addresses, telling new mail from old, finding a code |
| `commands` | listing, grouping, importing, planning and writing credentials |
| `browser` | where a browser is, what a page shows, and what to do next |
| `web` | the local page and its background task |

## What is promised

The laws are the public proof functions whose names begin with `law_`. Among them:

- a result is written only to an account whose name or stored address it matches, ignoring case;
- results that match no account are reported, never dropped;
- an account is put back into scheduling only after its credentials were written;
- no mail that was in a mailbox when its water mark was taken yields a code, and after the mark of an
  empty mailbox every mail is new;
- the counts of a binding are totals over all its batches;
- every sign-in ends at one of seven known stages, and only one that is done is good;
- numbers inside a style sheet or a script never pass for a code;
- accounts of banned addresses are deleted before anything is written;
- a dry run writes, exchanges and deletes nothing.

Settings are read from `config.toml`; `verify_tls = false` skips the verification of the gateway's
certificate for every request.
