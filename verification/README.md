# mn_app

The canvas side of a manga drawing application, as a library verified with
Verus: what a press, a drag and a release mean for each tool, the gestures that
outlive their button, the Object tool's selection, panels and their reading
order, fill repair, layer comps, layer defaults, the palette layout's file, the
watcher for linked pictures, the stroke engine's settings, and the import of
Krita presets.

- `src/` is the library. Every function states what it does to the state, and
  every module ends with the laws that hold across its functions.
- `app/` is the shell: floating point, files, the watcher's thread, and the loop
  that measures pointer events, hands them in and carries out what comes back.
- `tests/` runs the library on concrete values.

Coordinates, pressures and distances are floats in the shell. The library gets
their bit patterns: it copies and compares them and never computes with them.
