# soft_constructor

A two-dimensional mass–spring simulator in the style of Soda Constructor.

- `src/` is the verified library (Verus): the model's topology (masses, springs,
  muscles) and its invariant that every muscle acts on an existing spring, the
  wave's direction and the wall-contact rule that reverses it, how muscles set
  the rest lengths of their springs, and the reading of mass identifiers and
  settings from model files.
- `app/` is the program around it: the floating-point mechanics (`V2D`, the
  world's parameters, one simulation step), loading model files with
  `serde-xml-rs`, and drawing with `eframe`.
- `tests/` exercises the library on concrete values.
