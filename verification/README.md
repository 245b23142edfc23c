# linecheck

Per-file line limits with warn and error thresholds, glob rules from
`linecheck.yml`, an inline ignore marker, and three report formats
(violations, `--status` table, `--json`).

- `src/` is the library, verified with Verus: line counting over a model of
  the `\n`-split of a buffer (`lines`), comment syntax by extension
  (`comments`), rule resolution and classification (`checker`), the config
  resolver's cache (`config`), report text (`display`, `escape`), exclusion
  of walked paths (`files`), presets and command-line options (`preset`,
  `args`), and the record handed to foreign hosts (`binding`). Calls into
  `glob`, `content_inspector`, `serde_json` and `std::path` stand behind
  small trusted wrappers whose contracts are documented where they are
  declared.
- `app/` is the command: clap parsing, YAML loading with serde, the
  directory walk, file reading, and printing.
- `tests/` runs the library on concrete inputs.
