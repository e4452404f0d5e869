# rosa

A terminal client for the chat of zinro.net, with its logic verified in Verus.

- `src/` is the verified library:
  - `json.rs` reads JSON one level at a time through serde_json;
  - `api.rs` turns server responses into chat lines and player snapshots, and
    builds the requests;
  - `app.rs` holds the client's state and what keys and server events do to it,
    modelled by `AppView` and the spec functions beside it;
  - `display.rs` decides colours, badges, labels and selections on screen;
  - `laws.rs` proves properties that span several operations;
  - `text.rs` holds character-level helpers.
- `app/` is the program: HTTP requests, the poll loop, terminal input and
  drawing with ratatui.
- `tests/` runs the library on concrete inputs.
