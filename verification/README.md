# runtime_storage

Storage of an assistant runtime: sessions, inputs, runs, conversations, tool exchanges, delegated
tasks, work plans, goals and usage, with recovery after a restart.

- `src/` is the library. It is written in Verus: every operation of the engine has a contract that
  says what it does to the tables and files, or why it is refused.
- `app/` keeps an engine on a local disk: a SQLite database for the tables, files for the
  conversations, and a thread that owns both.
- `tests/` runs the library on concrete sessions.

## Layout of the library

| Modules | What they hold |
| --- | --- |
| `engine`, `rows`, `message`, `error` | the engine, its rows, messages and errors |
| `table`, `order`, `keys`, `text`, `numbers` | rows in memory, sorting, keys, texts and numbers |
| `conversation`, `recovery`, `append_effect` | bodies of conversations, appends and replacements |
| `tool_exchange`, `exchange_commands`, `exchange_recovery` | tool calls in two phases |
| `run_state`, `run_loading`, `run_projection` | runs |
| `session_*`, `idle`, `cascade`, `clear_cleanup`, `history_recovery` | sessions and their histories |
| `usage`, `skill`, `work_plan`, `goal`, `tool_images`, `recall` | what belongs to sessions |
| `stored_columns`, `paths`, `path_rewrite`, `resource_reference`, `worker` | columns, paths, and the queue of a worker |
| `*_laws` | what holds of several operations together |

## Errors

An error has a kind, which a caller acts on, and a fixed message. An operation that is refused
leaves the engine as it was, unless its contract says otherwise.
