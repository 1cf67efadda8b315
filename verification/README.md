# bgcat

A board game catalog: public listing pages, admin pages to create, edit and
delete board games, and a JSON API, over a SurrealDB database.

- `src/` is the verified library: the catalog's records, the statements that
  list and count board games, the query strings of listings, the admin forms,
  upload checks, access decisions and the errors with the answers they get.
- `app/` is the server around it: settings, logging, templates, the
  database connection, file handling for images, and the HTTP routes.
- `tests/` exercises the library on concrete values.
