# figby

The editing logic of a terminal FIGlet font and ASCII-art editor, written
in Verus: the functions in `src/` carry contracts that Verus proves,
except the small wrappers around standard-library and ratatui calls,
whose contracts are trusted.

- `src/` — the verified library: the canvas and its drawing, layers and
  their composition, brushes, the font editor, the file, export and import
  dialogs, the layer panel and the text it shows, key bindings, screen
  layout and lighting masks. Public proof functions named `law_*` state the
  properties that hold across operations (undo and redo, saving and loading
  recent files, cycles of modes, and so on).
- `tests/` — tests of the library on concrete values.
- `app/` — the ordinary Rust around it: terminal events and colours,
  directory listings and file access, and the floating-point lighting and
  image work.

What is not here: the application itself. There is no main loop and no
controller that routes terminal events to the components, runs the menus,
the welcome screen, the animation timeline or playback; the components and
dialogs are the pieces such a controller would drive.
