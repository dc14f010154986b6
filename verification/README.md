# hybridsearch

A verified library for an MCP web-search server: configuration, provider routing and
fallback, request bodies and response normalization for the search providers, the
specialist extractors (GitHub, StackExchange, arXiv, Wikipedia), the source cache, response
budgets and diagnostics. The functions in `src/` carry contracts proved by Verus, apart from the small
wrappers around outside crates, which state what those crates do; the laws of the library are public proof functions (`law_*`).

- `src/` — the library, checked by Verus.
- `tests/` — tests on concrete values.
- `app/` — the program: command line, environment, HTTP calls, the MCP transport and the
  diagnostic log file.

Outside crates are reached only through small trusted wrappers whose doc comments say
what their contracts claim: `url` and `percent-encoding` (URL parsing, query encoding,
percent-decoding), `serde_json` (string quoting), `quick-xml` (the XML reader and unescaping), std's
lossy UTF-8 decoding, and `chrono` (the clock).
