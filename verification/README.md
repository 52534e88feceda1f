# clai

A command-line chat client for the Anthropic API with a small session server.
Conversations are kept in sessions that can be named, resumed, given a role
and a model, listed and deleted; the server stores them in SQLite.

## Layout

- `src/` is the verified library (Verus). It holds the session store and its
  queries, the server's request handlers, the slash-command interpreter, the
  line editor with command completion, the client's session bookkeeping and
  start-up, the chat screen's layout, and the file-search tool's decisions.
  The store keeps its rows in insertion order with increasing identifiers;
  the laws that span operations are proved in `src/db_laws.rs`, in the line
  editor and in the chat handlers.
- `app/` is the program around it: terminal, HTTP client and server, SQLite,
  the Anthropic API and the Model Context Protocol server.
- `tests/` runs the library on concrete cases.

## Configuration

Read from the environment (or a `.env` file):

| variable             | default                  |
|----------------------|--------------------------|
| `ANTHROPIC_API_KEY`  | required                 |
| `CLAI_SERVER_URL`    | `http://localhost:3500`  |
| `DATABASE_URL`       | `sqlite://clai.db`       |
| `CLAI_SERVER_HOST`   | `0.0.0.0`                |
| `CLAI_SERVER_PORT`   | `3500`                   |
| `ALLOWED_ORIGINS`    | `http://localhost:5173`  |
| `CLAI_DEFAULT_MODEL` | none                     |

A chat turn goes to the session's model (chosen with `/model`), else to
`CLAI_DEFAULT_MODEL`, else to the first model the Anthropic models API lists
(its newest).
