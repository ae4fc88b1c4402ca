# bradar_de

The core of a small Wayland desktop environment, written in Verus and verified.

- `src/window.rs` — the window manager: windows, focus, workspaces, minimize/maximize,
  moves, the stacking order (focused window on top) and clicking; every operation keeps
  identifiers distinct and keeps a focus that is on a managed window there.
- `src/layout.rs` — floating and tiling layouts; tiling gives the focused window the left
  half and stacks the others on the right.
- `src/keybinds.rs`, `src/input.rs`, `src/text.rs` — key bindings, the keys the compositor
  keeps, and splitting command lines into program and arguments.
- `src/bar.rs`, `src/config.rs` — the top bar's widgets and render data; default settings.
- `src/render.rs`, `src/geometry.rs` — hex colours and the list of rectangles a frame fills.
- `src/animation.rs`, `src/cursor.rs` — the animation plans and cursor shapes.

`app/` is the program around it: smithay (Wayland, libinput, libseat, rendering), the
configuration file, floating-point animations and the cursor drag state.
