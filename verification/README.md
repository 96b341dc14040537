# opencli

The logic of a command-line tool that runs website adapters (YAML pipelines
that navigate, evaluate scripts, fetch and download in a browser driven
through an extension), proved with Verus.

- `src/` is the verified library. Each module states its behaviour over
  mathematical models (`Seq`, `Map`, the `Json` model of `json::JsonValue`)
  and proves it: the key-value store and its TTLs, adapter settings and
  discovery, the pipeline steps' decisions (navigate, wait, evaluate,
  scroll, collect, bg_fetch, kv, download, DASH muxing, base64 saving,
  article and media downloads, yt-dlp arguments), the error model, the
  daemon's HTTP rules, its task history and redaction, the connection state
  machine, job retries, plugins and tools. Public proof functions named
  `law_*` state what holds across calls.
- Adapter YAML texts are read in `src/` (`adapter_yaml::parse_yaml_adapter`,
  `is_adapter_file`, `register_adapters`); only walking the directory and
  reading the files is left to `app/`.
- Calls into `url`, `urlencoding`, `uuid`, `semver`, `base64`, `serde_json`
  and `serde_yaml` go through small trusted wrappers whose contracts are in
  their doc comments.
- `tests/` runs the library on concrete values.
- `app/` is the thin program around it: files, the environment, serde
  conversions and printing.
