# led_control

A service that drives Wi-Fi LED strip controllers, with its logic verified
by Verus.

- `src/` is the verified library:
  - `text`: hexadecimal and decimal rendering, and the reading of unsigned
    decimal numbers;
  - `commands`: the command language (`on`, `off`, `status`,
    `brightness,<n>`), the frames sent to a strip and the handling of its
    replies;
  - `config_utils`: the table of known controllers and the configuration;
  - `db`: the database rows and how macros are assembled from them;
  - `macros`: macros built from the configuration, and the events that are
    due at a moment;
  - `rest_api`: the replies of the web interface and the command a CSS
    colour stands for;
  - `lifecycle`: what the program does on interrupt signals.
- `app/` is the program around it: sockets, files, the database, the web
  server and signal handling.
- `tests/` runs the library on concrete values.
