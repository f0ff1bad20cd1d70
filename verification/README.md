# pmp_iq

The verified core of a platform-metadata service that syncs source
repositories, asks a model to describe each one, and keeps the resulting
platform model (applications, libraries, linked infrastructure, components,
use cases) browsable and searchable.

`src/` is the library, written in Verus; every function carries a contract
and is proved. Modules:

- `text`, `keyed`, `ids`: character-sequence toolkit, a key-ordered string
  map, UUID text.
- `strings`, `rbac`, `techradar`, `linked`, `query`, `sql`, `web`: string
  helpers, access roles, version currency, the linked-entity registry, list
  queries and their PostgreSQL statements, page context.
- `analysis`, `prompts`, `analyzer`, `catalog`, `changes`, `graph`, `search`,
  `trends`: the model's result and the vocabulary it is held to, the
  extraction prompts, the analysis request, dependency canonicalisation, the
  change feed, the connection graph, name search, the portfolio view.
- `webhooks`, `pr_watcher`, `review`, `process`, `routes`, `auth`, `time`,
  `remediation`, `dora`, `scorecards`: the decisions of the webhook handler,
  the pull-request watcher, the repository sync job, command execution, the
  web routes, remediation rules, delivery events and the scorecard tally.

`app/` is ordinary Rust around it: JSON decoding of model replies, running
commands with tokio, reading webhook payloads, and the float-valued scoring.
`tests/` exercises the library from outside.
