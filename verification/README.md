# vimcord

A terminal client for a chat service, with vim-style editing. The decisions
the client makes are a verified library (`src/`); the program around it
(`app/`) reads the terminal and the network and carries out the work the
library asks for.

## Library (`src/`, verified)

- `app` — the screen state (`App`), the events it handles (`AppAction`) and
  the work an event asks for (`Effect`), with a view of the state over
  mathematical values.
- `dispatch` — `App::handle_keys_events`, the one entry point for events,
  whose contract says what every event does in every state, and when an
  event cannot be handled (it would cut a character or overflow).
- `input`, `selection`, `events` — editing the input line, moving through
  lists and acting on Enter, and the updates that arrive from the service.
- `mentions` — `Message::map_mentions`, which writes `<@id>` mentions as
  `@name`.
- `channels` — who may read a channel, and how channels are grouped under
  their categories.
- `api` — the HTTP requests of the service's API, built exactly.
- `gateway` — the real-time session: handshake, heartbeats, and what each
  received frame means.
- `config` — settling the settings at start-up.
- `keys` — which terminal events become which client events.
- `vim` — the vim-mode keys carried out on the input line.
- `text`, `editing`, `keyed` — UTF-8 byte offsets over character sequences,
  editing at byte offsets, and small maps and sets held in vectors.
- `laws` — properties that span several events or operations.

## Program (`app/`)

The terminal loop, drawing, HTTP and WebSocket I/O, desktop notifications and
the settings file.
