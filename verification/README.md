# fillerkiller

The rules of the FillerKiller web API — crowd-sourced filler/canon voting for
TV episodes — as a Verus-verified library, with the HTTP server around it.

- `src/` — the verified library. `scoring` (vote status, skip guides and their
  modes, time saved), `order` (stable episode ordering), `guides` (user guide
  validation and visibility), `seo` (server-rendered heads, pages, JSON-LD and
  the sitemap), `og` (share-card tallies, text and word wrap), `db` (slugs,
  email normalization, account resolution), `import` (TMDB dates, show
  references, refresh selection), `oauth`, `auth`, `config`, `handlers`
  (request validation and the OAuth round-trip), `text` (character-level
  helpers), `error`, `models`, `tmdb`.
- `tests/` — tests of the library through its public API.
- `app/` — the axum server: database queries, TMDB and OAuth HTTP calls, JWT
  signing, rate limiting, metrics, and the card's pixel layout and rendering.
