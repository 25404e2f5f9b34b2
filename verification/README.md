# Token board

One board for the quotas of several model providers: Codex, Kimi, GLM and
DeepSeek.

- `src/` is the verified library: JSON documents, decimal notation and text
  (`json`, `serde_value`, `decimal`, `text`), the line of each provider
  (`codex`, `kimi_session`, `kimi_usage`, `glm`, `deepseek`), what they share
  (`quota`) and the board itself (`board`).
- `tests/` runs the library on concrete values.
- `app/` is the desktop application: it reads files, runs processes, sends
  requests and opens the window. `app/shell.rs` needs Tauri 2, which a desktop
  build adds to the dependencies.

What `serde_value` states of serde_json holds for its default features. The
features `preserve_order`, `raw_value` and `arbitrary_precision` change how
documents are written and read back, so a build that turns one of them on, by
itself or through a dependency, is outside what is stated.
