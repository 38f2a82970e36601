# rx views

The view layer of a pixel editor: views on sprites made of frames laid side
by side, their state (okay, dirty, damaged) and file status, the operations
they ask of the renderer, and the manager that keeps every open view by
identifier with a list of recently active ones.

- `src/` is the verified library (Verus): `geom` (rectangles and view
  coordinates), `extent` (frame extents), `ids` (view and snapshot
  identifiers), `animation` (the `rgx` animation that holds a view's frames),
  `paths` and `storage` (file storage and file status, with their labels),
  `view` (a single view) and `manager` (the view manager).
- `app/` holds what needs floating point (a view's area and center in the
  session workspace, coordinate rounding) and conversions from `std`
  paths and durations.
- `tests/` runs the library on concrete values.
