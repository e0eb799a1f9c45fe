# uzumaki

The window-event layer of the uzumaki UI runtime: it turns keyboard,
pointer, wheel and window events into the events a script sees, and applies
their default actions to a window's document (focus, text selection,
checkbox toggles, clipboard shortcuts, scroll targets).

- `src/` is the library, written in Verus. Every function carries a
  contract over a mathematical model of the document (a sequence of node
  slots linked to their parents), and the laws that span several calls (Tab
  order, hover transitions, hit testing, the destroy queue, window
  variables, ...) are stated and proved as proof functions.
- `app/` is the host side, in plain Rust: conversions from winit input,
  the loops that run the keyboard and pointer handlers against text layout
  and editors, everything measured in floating point (hit regions, wheel
  deltas, scrollbar drags, IME placement), the serialisable event payloads
  and the process-wide frame timings.
- `tests/` exercises the library on concrete documents.
