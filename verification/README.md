# h-at-h-rs

A client for the Hentai@Home distributed caching network, written in Rust and
verified with Verus.

The library in `src/` holds the logic of the client, with contracts that Verus
proves. It does no input or output: it builds requests and reads replies, decides
what is next, and keeps the books. The program in `app/` does the rest: arguments,
logging, network, disk, database and terminal.

| Module | What it holds |
|---|---|
| `text` | searching, splitting, joining and numbers in texts |
| `digest` | SHA-1 in hexadecimal |
| `web` | regular expressions, HTML, JSON and URLs, by outside crates |
| `rounding` | how integers round to doubles |
| `config` | arguments and configuration |
| `api` | the protocol of the H@H servers, failover, keystamps |
| `throttle` | bandwidth limits and request rates |
| `metrics` | counters, trust and quality, sizes and durations in words |
| `tables` | the declaration of the concurrent hash table |
| `cache` | the index of cached files and its eviction |
| `static_ranges` | the parts of the hash space that are assigned to the client |
| `archive` | archives of galleries, from the archiver's pages to the file |
| `gallery` | galleries, page by page |
| `hath_downloader` | the download queue of the website |
| `server` | flood control, file requests, commands, parameters of the HTTP API |
| `tui` | the state and the texts of the dashboard |

Laws that hold of several functions together are public proof functions whose
names begin with `law_`. What outside crates return is trusted: each such function
says in its comment what is taken from the crate's documentation.

`tests/` runs the library on concrete values, with the real outside crates.
