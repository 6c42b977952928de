# qtrs_widgets

The logic of a Qt-style widget set, written in Verus with its behaviour stated
in contracts and proved: size policies and layouts, focus and event routing,
accessibility trees, actions, menus and key sequences, and the value, cursor
and geometry rules of the input and display widgets.

Drawing, fonts, platform events and the widget object tree stay with the
caller. Where a widget depends on them, its functions take the measured values
(text sizes, the model's shape, a content size) as arguments and return what
to apply or draw (child placements, paint steps, what changed).

- `src/` holds the library; every module states its model as spec functions
  and views, and its public functions are proved against them.
- `tests/` holds the tests, run on the compiled library.
