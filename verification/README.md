# srs_worker

The logic of a Cloudflare worker that serves a community website: contact
forms posted to a Discord bot channel, a Discord `/report` command that
exports last week's contacts of a group location as CSV, and article and
event submissions that become pull requests on the website repository.

- `src/` is the library, verified with Verus. Each module states its
  behaviour in `requires`/`ensures` contracts over spec functions:
  - `slug`: group-location slugs.
  - `signature`: hex Ed25519 keys and signatures, strict verification
    (through `ed25519-dalek`).
  - `discord`: the signature gate and routing of interactions, the report
    command, Discord REST addresses and bodies, message pagination.
  - `clock`: readings of the UTC clock (through `chrono`), the export's
    seven-day window and the `%Y-%m-%d` article date.
  - `contacts`: the CSV contact export (through `chrono` and `csv`).
  - `form`: the contact-form handler's decisions and its JSON message.
  - `turnstile`: Turnstile results and request bodies.
  - `content`: article front matter and events files.
  - `pull_request`: the checks before any GitHub call, the branch, file and
    pull-request texts, and the answer to the submitter.
  - `json`, `text`: JSON string literals (through `serde_json`) and string
    building blocks.
- `app/` is the worker itself: routing, environment, HTTP calls to
  Turnstile, Discord and GitHub (`octocrab`), and JSON decoding; it hands
  plain values to the library and acts on its answers.
- `tests/` runs the library on concrete values.
