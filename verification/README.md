# isanagent

The verified core of an agent harness. The harness runs a language model in a loop: it takes
messages from channels, lets the model call tools, keeps the conversation within the model's
window, and answers. Every decision on the way is a function of this library with a contract
that Verus proves.

## Layout

- `src/` is the library.
  - The turn: `turn`, `prompt`, `context`, `doom_loop`, `research`, `failover`, `tool_call`,
    `approval`, `skills`.
  - Compaction: `compaction`, `compaction_run`, `summary`.
  - Chats: `bus`, `message`, `chat_table`, `routing`, `history_cells`.
  - Sub-agents: `subagent`, `subagent_tools`, `task_index`, `plan`.
  - Configuration: `config`, `config_providers`, `config_resolve`, `config_summary`,
    `provider_registry`.
  - Backups: `checkpoint`.
  - The HTTP interface: the `api_*` modules, `pending`, `response_cache`, `workspace`.
  - What they share: `text`, `json`, `named`, `order`, `ip`, and `outside`, which holds the
    calls into other crates together with what is taken for granted of them.
- `tests/` runs the library on concrete values.
- `app/` is the harness around it: files, the network, models and the clock.

A public proof function whose name begins with `law_` states a property that spans several
functions; its doc comment says it in words.
