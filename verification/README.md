# driftwm

The verified core of a window manager with an infinite canvas: every output is a
viewport with its own camera and zoom.

- `src/config`: actions, key, mouse and gesture bindings, window rules and
  settings.
- `src/state`: windows and which of them belong to which, outputs and viewports;
  stacking, focus, placement and layout.
- `src/handlers`: what client requests lead to: activation, decorations, output
  configuration, screen capture, seat events and the session lock.
- `src/render`: what a frame consists of, from front to back: windows with their
  chrome and blurs, outlines of other outputs, the cursor.
- `src/scalar.rs`, `src/numbers.rs`: doubles as bit patterns, compared, rounded
  and made from integers without floating-point arithmetic.
- `src/stack.rs`, `src/lift.rs`, `src/names.rs`: ordered lists that are searched,
  raised, sorted and lifted, and sets of names.
- `app`: floating-point geometry, processes and the Wayland protocols.

A double is carried through the library as its bit pattern. What needs
floating-point arithmetic is computed in `app`, and handed in.

Windows, surfaces, outputs and clients are numbered. `app` keeps the objects that
the numbers stand for.
