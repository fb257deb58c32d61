# blueflame

The core of the BlueFlame privacy browser, verified with Verus: the
filter-rule parser and the pattern sets the proxy matches against, the
per-request block decision and its counters, the per-site security
signals and the trust score built from them, URL-bar routing, the tab
strip, the new-tab and metasearch pages, the control pipe's handshake,
tool dispatch and approval rules, downloads, and the small bounded logs
the shell keeps.

Layout:

- `src/` — the verified library. Every public function carries a
  contract; the laws the library keeps (bounded logs, search engines
  never blocked, private tabs never saved, one approval per site, ...)
  are public proof functions next to the code they speak of. Calls into
  `url`, `regex`, `scraper`, `percent-encoding` and `getrandom` go
  through small trusted wrappers whose contracts name what those crates
  compute.
- `tests/` — scenario tests run against the compiled library.
- `app/` — the shell around it: files on disk, the clock, the process
  environment and the JSON spoken with the UI and the control pipe.
