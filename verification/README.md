# vimcord

A terminal client for Discord with vim-style editing. The client's state machine,
its text editing, its list navigation, the messages it builds for the gateway and
the REST API, its log format and its chat layout arithmetic are written in Verus
and proved against their contracts; the terminal, the network and the files are
driven by a thin program around them.

Vim's normal mode is part of the verified library (`src/vim.rs`): `i`, `I`, `a`,
`A`, `o`, `O` enter insert mode; `h`, `l`, `w`, `b`, `G` and (outside a chat) `j`,
`k` move the cursor; `x`, `dw`, `db`, `dd` delete; in a chat `k` and `j` select
messages, `i`/`I`/`a`/`A` start editing one's own selected message, `dd` deletes it
and `G` clears the selection; `:` and `/` open the command and search lines.

## Layout

- `src/`: the verified library.
  - `text.rs`, `num.rs`, `textbuf.rs`: strings as character sequences (with
    whitespace trimming), decimal numbers, and the input buffer with its cursor.
  - `api.rs`, `state.rs`, `collections.rs`: the data the service sends (messages,
    users, guilds, channels), the client's screens and windows, and the maps and
    sets the client keeps, each with a mathematical view.
  - `app.rs`: the client state `App`, its view `AppView`, and the transitions.
  - `navigate.rs`, `editing.rs`, `keys.rs`, `submit.rs`, `screens.rs`: moving
    through lists (and keeping the selection on the shown list), typing, the
    special keys, what Enter does on each screen, and moving between screens.
  - `vim.rs`: vim's normal mode, over the lines and words of the input.
  - `channels.rs`: a guild's channels ordered by position and grouped under their
    categories.
  - `incoming.rs`: what the client does with events from the gateway and replies
    from the API.
  - `step.rs`: one step of the client for a key, an update or a screen change,
    with the effects left for the program to perform.
  - `gateway.rs`, `rest.rs`: the JSON the gateway sends and receives, and the
    request paths of the API.
  - `logs.rs`, `layout.rs`: the log line format and its reader, and the height and
    scroll arithmetic of the chat.
  - `guard.rs`: checks that tell a caller whether a step's precondition holds.
  - `laws.rs`: properties that span several operations.
- `tests/`: tests on concrete values.
- `app/`: the program: terminal input and drawing, the gateway connection, the
  HTTP client, the log files.
