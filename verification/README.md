# tproxy

The decisions behind a TPROXY transparent proxy on Linux, verified with Verus.

- `src/enhance` wires Mihomo's DNS section for the transparent proxy.
- `src/feat` decides when the rule script runs, with which words, and what its
  outcome means.
- `src/yaml.rs` models YAML documents and states what is trusted of
  `serde_yaml_ng`.
- `src/text.rs` writes numbers and searches and trims text.
- `src/constants` holds ports, marks, names and delays.
- `app` performs what the library decides: files, processes, timers.
