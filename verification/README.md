# Carillon backend

Carillon holds connections to many mailboxes and address books and, the moment
something changes, posts a content-free, signed signal to each owner's webhook.
It signals; it never syncs.

`src/` is the library, verified with Verus: every rule the server follows is an
executable function with a contract. `app/` is the server around it: it reads
files, the clock's timers, sockets and the database, and does what the library
says. `tests/` runs the library on concrete values.

| Module | What it holds |
| --- | --- |
| `rows`, `table`, `store` | the rows that are kept, and every operation on them |
| `laws` | what holds of the store across operations |
| `event`, `signature`, `delivery` | change events, their signatures, and how they are delivered |
| `guard`, `weburl` | where the server may connect to |
| `imap`, `carddav` | probing and watching mailboxes and address books |
| `supervisor` | which services are watched, and how a watcher reconnects |
| `metering`, `sweep` | paid months, renewals and notices |
| `billing`, `email` | packs of credits, payment webhooks, mails |
| `oauth`, `discover` | authorizing the watching of a mailbox, finding its server |
| `api` | the control API: callers, views, services, sign-in, callbacks, purchases |
| `config`, `serve`, `migration` | configuration, start-up, database migrations |
| `ratelimit`, `live`, `json`, `digest`, `random`, `util`, `text`, `sort`, `idset` | what the others are built on |

## What is proved

Each function's `ensures` says what it returns and changes, for every input.
Functions that read the clock or draw random values come in pairs: one takes the
time and the values as arguments and has an exact contract, the other draws them
and says so. Laws that span functions are public proof functions, next to the
functions they speak of or in `laws`.

## What is trusted

The calls into `sha2`, `hmac`, `hex`, `serde_json`, `url`, `io-imap`,
`io-oauth`, `rand` and the clock stand behind small wrappers. The doc comment of
each names the function it calls and says what is taken for granted of it.
