# oasis_ui

The state, layout and input logic of a small widget toolkit for a handheld
console, together with the handheld side of a USB thin-client link, written
in Verus with every public function's behaviour stated as a contract.

Layout:

- `src/` — the verified library: layout helpers, flex and grid layout,
  focus navigation, widgets (accordion, buttons, check boxes, context and
  menu bars, date picker, dropdown, input field, list view, modal, radio
  group, spinner, split pane, tab bar, table, toasts, tooltip, tree view),
  themes and interaction-state colors, and the USB descriptors, message
  format, framebuffer and transfer state machine of the thin client.
  Drawing is stated as data: each widget's `draw` (and the menu bar's
  `draw_bar` and `draw_dropdown`) returns the list of `DrawOp`s a renderer
  should perform, given the text measurements the renderer supplies, and
  its contract gives that list exactly. Widgets whose state is a float
  (slider, progress bar, toggle, spin box, colour picker) are drawn from a
  small "face" value (`SliderFace`, `ProgressFace`, `SpinBoxFace`,
  `draw_toggle`, `draw_color_picker`) together with the pixel extents and
  label text that `app/` computes from the float. Text wrapping works on
  the words that `TextBlock::paragraph_words` splits the text into.
- `tests/` — tests run against the compiled library.
- `app/` — the floating-point parts (contrast ratios, slider, spin box,
  progress bar and toggle values, split ratios, HSV colors, percentage
  sizes) built on top of the library; each hands the library plain pixel
  values and text to draw with.
