# mpris_popup

The verified core of a floating GTK popup for waybar's MPRIS module: cover
art, title/artist, a seek bar and playback controls for the active player.

- `src/` is the library, verified with Verus:
  - `text` — characters, prefixes, ASCII case, Unicode white space, `i32`
    parsing and decimal printing;
  - `mpris` — playerctl output, the metadata line, player icons, bus names
    and the Hyprland focus command;
  - `art` — YouTube thumbnails, `file://` paths, and the cover cache;
  - `runtime` — `~` expansion, the pid file and the per-host margin file;
  - `popup` — clock texts, the player and title lines, the refresh plan and
    the refresh queue.
- `app/` is the GTK program around it: windows, D-Bus, child processes,
  files, HTTP and the floating-point seek bar.
- `tests/` runs the library on concrete values.
