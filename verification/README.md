# lib2ra

The verified core of a relay that carries SOCKS5 connections over TLS streams
that begin like HTTP.

- `src/` is the library, written and proved in Verus. `wire`, `message` and
  `stream` say which bytes stand on a stream and how they are read; `server` and
  `client` decide what each side does next; `table`, `gate`, `config`, `instance`,
  `pem` and `text` hold what they share. Each function states in its contract what it
  returns, and the `law_` functions state what holds between several of them.
- `app/` is the program around it: arguments, files, sockets, tasks and the
  interface to other languages.
- `tests/` runs the library, each part alone and both sides joined in memory.

What the library believes of other crates (`bincode`, `chashmap`, `rustls`,
`rustls-pemfile`, `uuid`) stands in the contracts of the functions marked
`external_body`, each with a comment that says what is claimed.
