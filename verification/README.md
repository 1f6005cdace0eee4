# rs_helper

A gateway for RuneScape Grand Exchange data (RS3 and Old School): a JSON API
under `/v1/ge`, an HTML front end, response caching, rate limiting, retries
with exponential back-off and Prometheus metrics.

The decisions and data handling live in a library verified with Verus
(`src/`); the HTTP server, the asynchronous cache, the rate limiters, the
metrics exporter and the HTML pages are ordinary Rust in `app/`, which calls
the library.

## Library modules

- `text`: character-level helpers (decimal notation, integer parsing,
  trimming and lower-casing).
- `price`: reading amounts such as `1.5m` or `-2.3k` and writing them
  compactly, with the laws that relate the two.
- `types`: games, categories, items, price graphs and queries.
- `config`: settings and their defaults.
- `cache`: cache keys and how long each kind of response is kept.
- `errors`: the error type and the JSON error answers.
- `ge`: the Grand Exchange logic: categories, request checks, upstream
  addresses, reading upstream items and price graphs.
- `retry`: when and how long to wait before calling the upstream API again.
- `ui`: HTML escaping, search, paging and the rows the front end shows.
- `metrics`: the metric changes the gateway records.
- `rate_limit`: limiter quotas and the answers to refused requests.
