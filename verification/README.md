# unicum_api

A client for a vending-machine vendor's web service and the HTTP API in
front of it, written in Verus.

- `src/` is the verified library: reading the service's HTML reports and
  stock pages, the machine state built from its product list, the forms it
  is sent, the session and its token, the API's authentication and
  permissions, the users and their password hashes, the configuration, and
  the text and calendar helpers these rest on. Calls into outside crates
  (HTML selection, Base64, Argon2, dates and times) go through small
  trusted wrappers whose contracts are stated next to them.
- `tests/` runs the library on concrete inputs.
- `app/` is the program: the command line, the HTTP server, the database,
  the HTTP client and the JSON shapes, around the library's decisions.
