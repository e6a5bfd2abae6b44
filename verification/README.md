# tomoe

The window-management core of Tomoe, a Wayland compositor with a niri-style
scrolling tiling layout, verified with Verus, and the compositor program
around it.

- `src/` is the library. Its functions are verified against their
  contracts, except two small wrappers around std calls (turning a `char`
  into a `String`, and the `Debug` quoting of a string), whose contracts are
  taken on trust: the scrolling tiling layout (`tiling`), workspaces, monitors and
  the multi-output layout (`workspace`, `monitor`, `layout`, `output`),
  keybinding parsing and lookup and the configuration (`config`), the
  commented TOML text a configuration is saved as (`config_file`), what each
  keybinding action does (`actions`), the frame-scheduling state machine of
  the DRM backend (`redraw`), interactive-resize geometry (`grabs`), the
  fallback cursor image (`cursor`) and the choice of backend (`backend`).
  Proof functions named `lemma_*` state properties that hold across
  operations (for instance that moving the focus right and then left
  returns it, or that a frame is rendered only when none is pending).
- `tests/` exercises the library on concrete values.
- `app/` is the program: Smithay protocol handlers, the winit and DRM
  backends, input handling and reading and writing the configuration file.
  It hands plain values to the library and carries out what the library
  decides.

Configuration is read from `~/.config/tomoe/config.toml`; a commented
default is written there on first run.
