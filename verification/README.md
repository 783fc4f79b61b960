# tishlang_floem

A Floem host for Tish UI: committed vnode trees become Floem views. The rules that decide
what a vnode becomes are a Verus-verified library; the window, the Floem views and the Tish
runtime glue are ordinary Rust around it.

## Layout

- `src/` — the verified library.
  - `text` — character-level `str` operations (trim, split, case folding) with their meaning as
    spec functions.
  - `value` — the script values the host reads: numbers (as `f64` bits and style text),
    strings, arrays and string-keyed maps in iteration order.
  - `decl` — inline `style` strings and style objects as `(key, value)` declarations; the
    overflow, sizing and direction rules read from them.
  - `color` — CSS colors (`#rgb`, `#rrggbb`, `#rrggbbaa`, names), including the inputs on
    which byte slicing would panic.
  - `style` — a style as the sequence of builder calls that make it, and what each declaration
    adds.
  - `props`, `vnode`, `element`, `controls` — reading props, choosing the view of a vnode, and
    the styles of HTML-like elements, headings, scroll regions and platform controls.
  - `numeric` — integer parsing and decimal rendering.
  - `laws`, `style_forms` — properties proved across functions.
- `tests/` — tests on concrete values.
- `app/` — the Floem host: converts runtime values to the library's model, replays the
  library's style calls on Floem styles, builds views, and runs the window.

Numbers inside styles stay text in the library (floating point is not verified); `app/`
parses them and skips a call whose number does not parse, as the declaration parsers do.
