# easy_english

The server of a language-learning site: users log in, choose dictionaries
for the languages they learn, and translate with DeepL or a language model.

- `src/` is the library, verified with Verus: the data model, the session
  token (its JSON payload, written and read back with a proof that reading
  inverts writing, signed and checked with `jsonwebtoken`), the parsing of
  the `Cookie` header, the guard of `/api/userspace`, SQL statement text,
  error messages and the decisions of the request handlers.
- `app/` is the web server around it (actix-web, sqlx, the HTTP clients of
  the language services, HTML templates).
- `tests/` runs the library on concrete values.
