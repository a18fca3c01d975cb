# forgejo-actions-failed-webhook-gotify

Listens for Forgejo webhooks and forwards subscribed events to Gotify. The
default subscription is `action_run_failure`.

The decisions of the service are a library verified with Verus; the program
around it reads files and the environment, serves HTTP and talks to Gotify.

## Layout

- `src/` — the verified library.
  - `text.rs`: string operations (trim, split, join, ordering) with their
    specifications over `Seq<char>`.
  - `events.rs`: the table of Forgejo event types and `X-Forgejo-Event`
    values, the list of valid names, and the subscription filter.
  - `notification.rs`: the body fields of a notification and which of them
    are left out.
  - `json.rs`: JSON values as the library holds them, with member lookup.
  - `forgejo.rs`: request headers, signature checking, and the title, body
    and extras rendered from a payload.
  - `gotify.rs`: the URL that messages are posted to.
  - `config.rs`: defaults, the merging of a configuration file and of the
    environment, and the checks that produce the final settings.
  - `server.rs`: what the webhook endpoint answers and what it forwards.
- `tests/` — tests of the library on concrete values.
- `app/` — the program: configuration loading, the HTTP server, the Gotify
  client, and the conversions between `serde_json` values and the library's.

## Configuration

The program reads `config.toml` (or the file named by `APP_CONFIG`), then the
environment, which overrides the file.

| TOML setting | Environment variable | Default |
| --- | --- | --- |
| `logging.level` | `RUST_LOG`, `LOG_LEVEL`, `APP_LOG_LEVEL` | `info` |
| `notification.body_exclude_fields` | `NOTIFICATION_BODY_EXCLUDE_FIELDS` | `[]` |
| `server.bind_addr` | `BIND_ADDR`, `APP_BIND_ADDR` | `0.0.0.0:3000` |
| `server.webhook_path` | `WEBHOOK_PATH`, `APP_WEBHOOK_PATH` | `/webhook` |
| `gotify.base_url` | `GOTIFY_BASE_URL` | required |
| `gotify.app_token` | `GOTIFY_APP_TOKEN` | required |
| `gotify.priority` | `GOTIFY_PRIORITY` | `5` |
| `gotify.title_prefix` | `GOTIFY_TITLE_PREFIX` | `Forgejo` |
| `forgejo.secret` | `FORGEJO_SECRET` | unset |
| `forgejo.events` | `FORGEJO_EVENTS` | `["action_run_failure"]` |
