# xwdoc

The core of a documentation scraper, verified with Verus: document and entry
models, entry indexes and page databases, version and slug rules, URL and
path normalisation, HTML filters and filter stacks, the crawl's queue and
page handling, search ranking, registries of filters and scrapers, and the
checks of a scrape's output.

- `src/` is the verified library. Every public function states what it
  returns or changes; outside crates (`url`, `nipper`, `base64`,
  `mime_guess`) are reached through a few trusted wrappers whose contracts
  name what those crates compute.
- `app/` is the program around it: HTTP requests, files, JSON, the
  terminal, process-wide registries and timing.
- `tests/` runs the library on concrete values.
