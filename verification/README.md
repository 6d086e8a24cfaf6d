# eee

Hold **Ctrl+Alt+Shift+E** for 10 seconds to restart `explorer.exe`.

A small Windows utility that runs silently in the background. While the hotkey
is held, an overlay counts down; releasing it early cancels, holding it to the
end stops Explorer and starts it again.

```
eee.exe install      copy to %LOCALAPPDATA%\eee, start at every logon
eee.exe uninstall    remove the startup task and the installed files
```

## Layout

- `src/` decides what is done, and is verified with Verus: the countdown and
  the overlay (`overlay`, `overlay_laws`, `countdown`, `countdown_laws`,
  `double`, `paint`, `hotkey`),
  starting (`launch`), installing and removing (`setup`, `setup_laws`,
  `commands`, `registry`, `path`), and text as Windows wants it (`text`).
- `app/` does it: it polls the keyboard, draws, runs programs and writes to the
  registry, and reports back what came of it.
- `tests/` runs the library on examples.
