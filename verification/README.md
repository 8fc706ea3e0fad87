# iherb-cli

Query iHerb product data from the command line: a product page or a search
results page is fetched through a headless Chrome, parsed, and printed as
Markdown for a reader or as one JSON document for a program. Pages are cached
on disk.

The rules of the tool live in a library whose behaviour is stated in
`requires` / `ensures` contracts and proved with Verus; the program around it
does the browser, network, file-system and terminal work.

## Layout

- `src/` — the verified library.
  - `text.rs`: the string toolkit every rule is written over (search, split,
    trim, decimal and padded numbers, case mapping).
  - `cli.rs`, `config.rs`: arguments and the resolved configuration (flags,
    then environment, then config file), durations, cache modes, profiles.
  - `cache.rs`: cache file names, freshness, `cache stats` and
    `cache clear`, with the laws that keep distinct requests apart.
  - `dom.rs`: the HTML queries the parsers make, answered by the `scraper`
    crate.
  - `json.rs`: embedded JSON as the parsers read it.
  - `scraper/`: review counts, not-found pages, currency markers,
    availability, the specification list, supplement facts, the review
    histogram, search URLs and cards, structured data, navigation decisions.
  - `targets/`: what a product or a search fetch asks for, and how result
    pages are gathered without repeating a product.
  - `fetch.rs`, `batch.rs`, `browser.rs`: page walks, batch exit codes, and
    which browser runs.
  - `model.rs`, `output.rs`, `clock.rs`, `error.rs`: records and their
    provenance, rendering, instants, and the error taxonomy with its exit
    codes.
- `tests/` — tests of the library on concrete values.
- `app/` — the `iherb-cli` program: clap, tokio, chromiumoxide, reqwest,
  the file system, and the floating-point prices and ratings.
