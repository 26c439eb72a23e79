# webapp

The backend of a small web application: a login endpoint, session tokens
signed as JSON Web Tokens, and a server that listens on a configured URL and
redirects from others.

`src/` is the verified library (Verus):

- `login` — the rule that decides a login with credentials, and the session
  token that an accepted login is answered with.
- `token`, `claims` — session tokens: the claims they carry, their JSON form
  (writer and reader, with the proof that the reader gives back what the
  writer wrote and that the writer writes JSON text), signing with
  `jsonwebtoken`, creation and renewal (with the expiry checked against a
  clock value that is passed in).
- `json`, `json_value` — JSON strings and integers (writers, readers and
  their round trips) and the grammar of JSON values of any kind.
- `server` — what the server binds and where it redirects from, decided from
  the configuration and `url`'s parse of the configured URLs.
- `config`, `protocol`, `database` — the configuration, sessions and the
  messages of the session store.

`app/` is the program around it: command line, configuration file, logging,
the actix actor system and HTTP server, TLS and the diesel session store.
