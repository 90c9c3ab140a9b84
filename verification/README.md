# plit-tui

A terminal client for the plit ecosystem: chat with Pipelit workflows,
follow their nodes as they run, and type commands.

The library (`src/`) holds the application's logic, verified with Verus:

- `actions`, `structs`, `reducers`: the application state and how every
  action changes it, with the invariant that every reachable state keeps.
- `middlewares`: key bindings, the chat request stage and the dispatch
  chain; `middlewares::websocket` reads what the server pushes, from the
  raw text on (`json` holds the parsed JSON tree and its lookups).
- `components`: template XML parsed into an element tree
  (`components::parsing::xml`, `components::xml`), and the layout of the
  conversation, input box, status bars and tabs as styled text.
- `session`: the decisions of the event loop; `client`: API addresses.
- `text`, `str_map`, `util`: string and map helpers with their models.

The program (`app/`) reads keys, the clock and the network, renders the
templates with handlebars, draws with ratatui, and hands everything else
to the library.

Templates are read from `packages/default/templates/*.hbs`.
