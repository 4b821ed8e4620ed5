# mxu

The verified core of the MXU desktop shell, written in Verus.

- `src/` is the library, verified with Verus:
  - `log_buffer`: the per-instance run-log buffer with its bound, read as a
    map from instance id to entries, with its laws (isolation, bound,
    latest-entries-in-order, clearing);
  - `path_norm`: lexical path normalisation over path components;
  - `text`: line splitting, the stdout log format, user agent, help text;
  - `cli`: command-line flag parsing over the process arguments;
  - `autostart`: scheduled-task arguments, the refresh check (through
    `regex`), and the legacy-autostart migration as a state machine;
  - `system`: the VC++ runtime flag, launch plans, the data directory, the
    `/proc` process filter and the web-server port polling step;
  - `types`: data exchanged with the front end.
- `app/` is the shell around it: the commands that read the environment,
  run processes, touch the file system and hold the shared state.
- `tests/` runs the library on concrete inputs.
