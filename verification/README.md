# pane_launcher

The logic of a desktop launcher that opens up to 20 terminal panes (iTerm2
split panes or Terminal.app windows on macOS, a PowerShell backend on
Windows) and prepares Codex sessions in them, verified with Verus.

- `src/` is the verified library:
  - `text` – trimming, blank tests, prefixes, replacement, joining, decimals;
  - `quote` – shell and AppleScript quoting (with round-trip proofs) and
    file-name stems;
  - `config` – the launcher configuration and the rules for a pane's Codex
    mode, delivery, profile and path;
  - `codex` – the merged prompt and the Codex command of a pane;
  - `plan` – planning a macOS launch pane by pane, and its outcome;
  - `script` – the pane grid, the iTerm2 and Terminal.app scripts, the preview;
  - `launch` – the decisions around running a launch script;
  - `host` – project root, Windows backend, templates, directory pickers,
    the Windows clipboard script.
- `tests/` runs the library on concrete values.
- `app/` is the Tauri shell: commands, files, processes, JSON.
