# comic_sources

The logic of three Aidoku comic sources, written in Verus and proved against
its contracts:

- **batcave** reads a comic site's html behind a browser check: list and search
  requests, the check's decisions and cookies, comic details, chapters and deep
  links.
- **webtoons** reads the english Webtoons site and its mobile episode api: title
  lists, searches, series details, episodes as chapters, the weekday listing and
  deep links.
- **xcomic** talks to a GraphQL api keyed by comic editions: the queries and their
  selects, the reader's settings, how editions of a title are ranked, how records
  become comics and chapters, the feeds, chapter paging and deep links.

`src/` is the verified library. `src/text.rs` and `src/numbers.rs` model strings
and decimal integers as sequences of characters, and `src/sorting.rs` a stable
sort by integer keys; each source's module states what its functions return over
spec functions of those models, and public proof functions named `law_*` state
what holds across calls.

`app/` holds what the library leaves to the app: requests, html selection, JSON
through serde, settings storage and the Aidoku trait impls. `tests/` runs the
library on concrete values.
