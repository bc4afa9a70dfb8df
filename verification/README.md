# zeroengine

The decision-making core of the ZeroEngine editor and its build tooling, written in
Verus: the functions in `src/` carry contracts that the verifier proves, except six small
wrappers over std (`String::push`, `str::to_lowercase`, `str::to_uppercase`,
`char::is_uppercase`, and `str::parse` for `i32` and `u32`), whose contracts are trusted
and stated in their doc comments.

## Layout

- `src/` — the verified library.
  - `text`, `paths`, `sorting`: characters and strings, a model of `/`-separated paths
    (`Path::join`, `parent`, `strip_prefix`, `ancestors`, …; components as `Path::components`
    gives them, a leading `.` of a relative path included, with paths written back in
    canonical `/`-joined form), sorting and de-duplication.
  - `project`: project descriptions — scene-name rules, scene-list normalization, paths
    derived from a project, the C# project file, new-project scaffolding, game data.
  - `graph`, `subtree`, `reparent`, `hierarchy`, `entity_edit`: the scene's parent/child
    structure — deletion with link clean-up, re-parenting, cloning, creating, renaming and
    duplicating entities, and the hierarchy panel's ordering.
  - `undo`: the bounded undo/redo history and grouped scene edits.
  - `sheet`, `assets`: texture sheets (cell trimming, shelf packing, cell picking) and
    asset paths.
  - `scene_doc`, `packaging`: what a distributable build does with scene files, build
    targets, runtime binaries, output layout.
  - `scene_meta`: a scene's identity and the header of its saved form (snapshot, restore,
    load).
  - `scenes`, `workspace`, `panels`, `explorer`, `inspector`, `animation`: the editor's
    scene list and play mode, status text, file explorer, inspector rules and animation
    clip editing.
  - `hot_reload`, `build_flow`, `engine_env`: the script hot-reload watcher, the
    distributable build's steps, and start-up decisions.
  - `physics`: the physics world's bookkeeping — which entity owns which collider, the
    collider pairs in contact, and the script callbacks for contacts and sensor overlaps.
  - `tiles`, `documents`, `frame`: tile paint/erase strokes, the open document of the
    texture sheet and animation clip editors, and what the application does after a frame.
- `tests/` — ordinary Rust tests against the library.
- `app/` — a command-line front end: file and process I/O, TOML and JSON files, image
  decoding, and the camera's floating-point projection, handing plain values to the
  library.

Public `law_*` proof functions state properties that span several operations (undo then
redo, snapshot then restore, back then forward, play mode round trip, save then load, shelf packing without
overlap, …).
