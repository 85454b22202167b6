# simpoll

A small poll server's core, verified with Verus.

- `src/text.rs`: white space, trimming, splitting at a character or at
  `\r\n`, joining, decimal numbers; specifications and verified code.
- `src/make_id.rs`: random base62 ids.
- `src/survey.rs`: questions and surveys parsed from lines of text, and the
  HTML, SQL, file and CSV text made from them.
- `src/response.rs`: answers read from a submitted form, and their SQL.
- `src/store.rs`: the surveys the server knows, by id, with key checks.
- `src/laws.rs`: properties that span several functions.
- `app/main.rs`: the HTTP server, the SQLite database and the survey files.
