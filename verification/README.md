# orbit_sim

An orbital gravity sandbox: planets attract each other, merge when they
touch, leave trails, and can be moved, resized, aimed, saved and loaded.

- `src/` is the verified library (Verus):
  - `text`: decimal notation, splitting text into words, reading unsigned
    integers;
  - `naming`: planet names from their index;
  - `save_format`: the text format of a saved simulation, writing and
    reading it, with the proof that reading gives back what was written;
  - `compact`: removing marked items by swapping in the last one;
  - `trails`: ring buffers of recent positions and their per-frame
    bookkeeping;
  - `controls`: tools, keyboard shortcuts, mouse presses and releases,
    tutorial pages, and the two-planet setup of the Kepler view.
- `app/` is the egui program around it: window, drawing, input events,
  file dialogs, and the floating-point physics.
- `tests/` exercises the library on concrete values.
