# kabu

The rules of Kabu, a personal stock portfolio tracker, as a library verified with
Verus, and the programs around it.

- `src/` — the verified library:
  - `config` — the sections of `config.toml`, their defaults, where the file is found,
    and how a secret resolves from a direct value or an environment variable;
  - `pdf` — recognising the PDF among uploaded attachments (raw, behind a byte order
    mark or whitespace, or Base64) and decrypting it with lopdf;
  - `gemini` — reading the model's reply and deciding when to retry;
  - `transactions` — transaction kinds, normalization of their text fields, the set of
    holdings to rebuild;
  - `market` — Taiwan-listed symbols, their market, code and quote endpoint;
  - `assets` — grouping tracked assets by price source, and judging the sources' replies;
  - `portfolio` — pairing holdings with their latest price;
  - `models`, `text` — small records and exact text operations.
- `app/` — the HTTP server (`kabu server`) and the one-shot price updater
  (`kabu update`): SQLite storage, HTTP calls, and the amount arithmetic, which is
  floating-point.
- `tests/` — tests of the library.
