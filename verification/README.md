# advanced_table

A data table for iced with multi-level headers, frozen columns, sorting,
resizing, reordering, and selection of rows, columns and cells. What the table
decides is verified with Verus; the widget around it measures and paints.

- `src/` is the library. Each function states in its contract what it returns or
  changes, and Verus proves it. What holds of several functions together is
  stated in the modules that end in `_laws`, and beside the functions it is about.
- `app/` is the widget and a demonstration window: layout and drawing through
  iced, and the single-precision arithmetic on lengths.
- `tests/` runs the library on concrete values.

Lengths reach the library as `Px`, the bit pattern of a single-precision number.
The library carries such lengths, compares them as the numbers compare, NaN and all,
and picks the larger or the smaller; sums and quotients are computed in `app/` and
handed in.
What holds of those sums and quotients is stated for exact arithmetic, in
`src/measure_laws.rs`.
