# freeplay_stats

Match history, rating periods, name reservations and ghost and replay storage
for the Freeplay ladder, as a verified library with an HTTP service around it.

- `src/` is the library. Every operation states what it does to the tables.
  - `db` holds the tables: results, players, histories, names, uploads and the
    close of a rating period.
  - `handlers` answers requests; `auth` decides who may make them.
  - `laws` states what holds of the library as a whole.
  - `table`, `order`, `text` and `double` are what the rest is built from.
- `tests/` runs the library on concrete values.
- `app/` is the service: HTTP, SQLite, the Discord webhook, the timer of the
  rating periods and the floating-point formulas of Glicko-2.

## Service

Settings come from the environment: `STATS_API_KEY` (required), `DB_PATH`
(`stats.db` if not set), `DISCORD_WEBHOOK_URL` (no notifications without it),
`JWT_SECRET` (no uploads without it) and `PORT` (8081 if not set).

| Request | |
| --- | --- |
| `GET /health` | `ok` |
| `POST /results` | record a match; needs `X-API-Key` |
| `GET /leaderboard?limit=50` | placed players by rating |
| `GET /player/:discord_id` | a profile |
| `GET /player/:discord_id/history?limit=50` | recent matches |
| `POST /ghosts/upload` | store a ghost; needs a token |
| `GET /ghosts/list?rom_hash=&limit=50` | newest ghosts |
| `GET /ghosts/download/:ghost_id` | a ghost file |

A posted match counts at once for wins and losses, and for ratings at the next
close of the period, once an hour. A second post for the same room does nothing.
