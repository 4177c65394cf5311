# pricetracker

Tracks the prices of product pages of two outdoor-gear shops (8a.pl and
skalnik.pl).

- `src/` is the verified library (Verus): which shop a URL belongs to and the
  first matching shop of a list, the title and price text of a shop page
  (HTML queries through the `select` crate), the mock and curl page sources,
  the grouping of stored price entries by URL, and the display server's routes.
- `app/` is the program around it: the SQLite store (`rusqlite`), running
  `curl`, HTTP through `reqwest`, the display server (`rouille`), and reading
  the price text as a floating-point number.
- `tests/` exercises the library on concrete pages and values.
