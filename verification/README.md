# cursor_server

The verified core of a Cursor "bring your own key" server: the logic that
decides what the server says and does, written in Verus with contracts over
mathematical models and proved.

## Layout

- `src/` — the verified library.
  - `text`, `json`, `error`: character utilities, a JSON value model, errors.
  - `token_count`: parsing and formatting of counts such as `272K`.
  - `model`: conversation history, prompts and the context-size estimate.
  - `compaction`: when to compact, what is compacted, the fallback summary.
  - `derived_state`: the todo list and plan that a history leaves.
  - `json_stream`, `stream`: incremental reading of streamed tool-call
    arguments and their presentation to the client.
  - `interaction`: how an answered interaction query continues.
  - `manifest`, `plugin_data`: plugin manifest validation and data file names.
  - `model_catalog`: the model catalog and its merge into upstream answers.
  - `router`: routing of model requests, the steps of a routed stream and
    built-in provider configuration.
  - `network`: proxy settings, HTTP client builders and the client cache.
  - `run`: run failures and the registry of active runs.
- `tests/` — tests of the library, run against the real outside crates.
- `app/` — the I/O around the library: files on disk, protobuf encodings,
  HTTP responses, async locks and channels.

Laws that span several functions are public proof functions named `law_*`.

`app/` holds the I/O that the library's functions are written for, but not
every driver around them: the loop that runs a routed provider stream
(`router::stream_step` decides each of its steps), the background web search
and fetch that an answered interaction query asks for, the run actor and the
catalog handlers are not part of this crate; they need the store, the plugin
registry, the call recorder and the transport, which live elsewhere.
