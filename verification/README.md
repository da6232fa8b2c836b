# wasserxr_core

The standard library of the WasserXR engine: terminal consoles for inspecting
and editing a running scene, and the XR, rendering and physics systems.

`src/` is verified with Verus. It holds the decisions the systems make:

- `console::transition` — the scene console as a state machine. `next_screen`
  states, over what the scene answered, which screen a key leads to;
  `transition` asks the scene exactly that and is proved to follow it;
  `key_call` and `call_effect` state which one operation a key asks of the
  scene, with which arguments, and what it did to the scene (keys that only
  read leave it as it was). `console::laws` proves properties of the machine
  (tabs cycle, prompts undo, cursors stay in range, error screens close onto
  where they were opened, `D` removes the entity under the cursor).
- `console::keys`, `console::navigation`, `console::layout`, `console::logs`,
  `console::labels`, `console::capture`, `console::failure` — key decoding,
  list and scroll arithmetic, screen geometry, log wrapping, and texts.
- `console::state`, `console::console_app`, `console::console_system` — the
  component-driven console and the tab application.
- `utils` — decimal parsing, text searching, and `sync_objects`, which keeps a
  map of tracked objects in step with a list of items; its contract states
  the whole run of callbacks (removals first, then each item in order) and
  `utils::sync_laws` that tracked objects are never made anew.
- `xr` — version numbers handed to OpenXR, controller tags, session events.
- `physics` — joining mesh triangle lists, naming debug entities and
  choosing the model file a debug entity renders.
- `my_console` — the minimal threaded console.
- `material` — reading a material file: the JSON text is parsed by
  serde_json, and the library decides which shader it names and which
  uniform each member becomes (`app/` reads the float values themselves).
- `render_select` — which Model entities can be drawn, loading their model,
  material and shader assets on the way (`app/` computes the transforms).

Calls into the engine runtime and into ratatui go through the functions
marked `external_body` in `console::scene_calls`, `console::logs`,
`console::layout` and `console::capture`; their contracts are trusted.

`app/` is ordinary Rust around the library: terminal and file descriptors,
drawing with ratatui, the engine's system macros, and the OpenXR, OpenGL and
rapier code.

`rapier3d` and `asset-importer` are not among the dependencies in
`Cargo.toml`: with them the dependency tree grows past several hundred
packages, so they were left out. The parts of `app/` that use them
(`app/physics.rs` for rapier, `app/assets.rs` for asset-importer) are kept
as written and do not build until those two crates are added back.
