# rsspls

`rsspls` makes RSS feeds of web pages that have none. A configuration file names the
pages and, with CSS selectors, the elements on them that become the items of a feed.
JSON documents work the same way, with `jaq` filters in place of selectors.

```toml
[rsspls]
output = "~/feeds"

[[feed]]
title = "Example"
filename = "example.xml"

[feed.config]
url = "https://example.com/posts"
item = "article.post"
heading = "h2"
link = "a"              # everything that links, if left out
summary = [".intro", ".body"]
date = "time"
min_items = 1           # fewer items make the feed fail
```

The configuration is read from `feeds.toml` in the user's configuration directory, or
from the file given with `--config`. With `RSSPLS_HOME` set it is read from
`$RSSPLS_HOME/feeds.toml`, caches are kept in `$RSSPLS_HOME/cache`, and feeds go to
`$RSSPLS_HOME/out` unless another directory is given.

## Layout

- `src/` is the library: all that is decided and computed between a page and its feed,
  written in Rust and verified with Verus. Its functions have contracts, and the public
  proof functions named `law_...` state what holds of several functions together.
- `app/` is the program around it: the command line, files, requests, filters and hooks.
- `tests/` runs the library on concrete pages and configurations.

What other crates compute (the elements that a selector matches, the URL that a
reference resolves to, the date in a text) is trusted. Each such call stands in one small
function marked `external_body`, whose comment says what is claimed of it. Of the user's
own directories nothing is claimed: they are what the environment says.
