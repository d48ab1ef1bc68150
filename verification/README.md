# settings_app

A desktop settings panel with a screenshot tool (global hotkey, region
selection, annotations with undo/redo, pinning, delayed capture and scroll
capture), split in two crates.

- `src/` is the library, verified with Verus. It holds the logic the program
  acts on, each function with a contract:
  - `hotkey`: parsing of hotkey strings such as `"Ctrl+Alt+S"`, key names to
    key codes, and the per-frame filtering of hotkey events;
  - `history`: the annotation list, the selection and their bounded
    undo/redo stacks, with the laws that undo and redo reverse each other;
  - `scroll`: RGBA frames, the search for the scroll offset between two
    captures and the stitching of the long image;
  - `datetime`: seconds since the epoch to a calendar date and time, and the
    names of saved pictures;
  - `session`, `capture`, `window`, `settings`, `tray`: the decisions of the
    screenshot session, the window, the settings pages and the tray.
- `app/` is the program around it: the `eframe` window, drawing, the
  operating-system calls (hotkey registration, screen capture, clipboard,
  files, registry, tray) and the floating-point geometry of the canvas.
- `tests/` runs the library on concrete values.
