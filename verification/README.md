# astra_gui (verified core)

The backend-agnostic core of a UI toolkit, written in Verus.

`src/` is the verified library:

- `memory` — widget memory: per-widget state (text input, slider,
  collapsible, toggle) stored under textual IDs, viewed as a map.
- `input` — mouse buttons, keys, typed characters and modifiers across frames.
- `events` — focus, cursor blinking, and the per-frame dispatch decisions
  (focus on press, drag start/move/end, clicks, hovers).
- `context` — the UI context components consult: input, recorded
  interactions, focus, widget memory and widget ID generation; its
  `end_frame` dispatches a frame's interactions and records them.
- `ids` — the `"{scope/...}/{label}_{counter}"` ID format, with the proof
  that IDs generated in one frame are distinct.
- `debug`, `content`, `layout`, `node` — options, policies (including which
  axis a wheel gesture scrolls) and node IDs.

`app/` holds the floating-point side (colors, sizes and transforms, easing,
text content and its measurement interface, pointer position and motion
thresholds, wheel routing and scroll clamping, drag-value accumulators) as
ordinary Rust on top of the library.

Not part of this crate: the node tree and its layout engine, hit testing
and automatic IDs, styles and their interpolation, rendering output (shapes,
clipping, debug shapes), the interactive style-transition manager, scroll
offset animation and persistence, and the component system. All of it
computes on floating-point rectangles and shapes.
