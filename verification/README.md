# SolNAS client core

The verified core of a desktop client for a SolNAS file server. The library
(`src/`) holds every decision of the client, each with a contract proved by
Verus:

- `client` — the state of the client, what each click or message does to it,
  and the request it sends to the server, with laws over whole sessions
  (one delete click never deletes; only a login or Log Out changes the
  screen);
- `messages` — the messages that background work hands back, and how each
  reply of the server becomes one;
- `upload` — cutting files into 100 MiB chunks and the steps of an upload,
  with up to three attempts per chunk;
- `theme` — the colour theme and the `style.ini` file that customises it:
  every colour has a key, including each `..._btn` key that the default file
  writes,, and editing
  any line of the default file changes that colour alone;
- `saved_address` — the `config.ini` file that remembers the server address;
- `preview` — which files get thumbnails and how their bytes are decoded;
- `paths`, `text` — server paths, API addresses and character helpers.

`app/` is the window (egui/eframe), the network (reqwest) and the local files
around the library. `tests/` runs the library on concrete values.
