# open_eyes

The verified core of a multi-camera security pipeline: cheap cameras feed
frames through triage nodes, features are matched across cameras, and
events go out to the continuum grid.

`src/` is the library, verified with Verus. Every public function states
in its contract what it returns:

- `features`, `fusion` — descriptor distances, Lowe-ratio matching, the
  cross-camera matches and the calibration decision.
- `scene_hash`, `edge_density`, `metrics` — the average hash of a frame,
  edge pixels per grid cell, pixel confusion counts.
- `gpu` — texture handles and the derived textures of a GPU frame.
- `rtos` — the pipeline dispatcher's decisions and configuration.
- `ffi` — the native engine's event log, BGRA and greyscale conversion,
  the C-ABI enumerations and configuration.
- `datasets`, `synthetic` — the temporal annotation format, `.flo`
  payloads, frame file names, and synthetic sequences with ground truth.
- `compat` — which cameras can be flashed, by chip or companion app.
- `grid`, `stitch`, `camera`, `frame`, `splat` — event topics, command
  routing, node and zone defaults, source naming and reconnection, maps.
- `geometry`, `scene` — plane labels, room kinds and occupancy sources.

Public proof functions named `lemma_*` state the laws the library keeps.

`app/` is the program around it (the `oe-eval` evaluation harness, OpenCV
calls, floating-point geometry and statistics, the C and JNI boundary,
async tasks, serialization). `tests/` runs the library on concrete values.

Entity tracking across frames and a manager of several camera sources are
not built: they need entity classes and camera configuration and status
types that the project does not define yet, and their positions and
timings are floating point.
