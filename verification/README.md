# simu_backend

The rules of the simu file-sharing service, written in Verus: many of the
decisions its HTTP handlers make (who may do what, what is stored, what is
answered) as functions on plain values with contracts proved by Verus. The
HTTP server itself, the database and object-store access, the data export
and the outbound side of the event bridge are not part of this library.

Layout:

- `src/` — the verified library, one module per area: accounts and sessions
  (`auth`), second factor (`mfa`), the hash-chained audit log (`audit`),
  files (`files/`: keys and quotas, uploads, downloads and ranges, listing,
  tags, bulk actions, versions, the trash, share links, zip downloads,
  thumbnails), organizations (`orgs`), administration (`admin`), chat
  (`chat`), configuration (`config`), mail (`mail`), live events (`events`),
  the periodic sweep (`housekeeping`), OAuth sign-in (`oauth`), the admin
  command line (`cli`) and the HTTP layer's own rules (`server`). Outside
  crates (sha2, hex, base64, subtle, uuid, argon2, totp-rs, validator, regex,
  chrono, serde_json, url, zip, image, rand) are called through small trusted
  wrappers whose contracts say what each call gives.
- `tests/` — tests on concrete values, run against the real outside crates.
- `app/` — a small command-line tool around the library: it checks the
  configuration from the environment, probes the mail server, and relays
  event envelopes in their JSON form.
