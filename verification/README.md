# pumicite

The rules of a Vulkan renderer, verified with Verus.

- `src/` is the library. It decides on plain values what is created on a
  device, which memory resources get, what is recorded into command buffers,
  how systems are grouped into submissions and render passes, how pipelines and
  shader binding tables are laid out, and how textures and glTF scenes are read.
  Each public function has a contract, and the `law_*` proof functions state
  what holds across functions.
- `app/` carries the decisions out: it talks to Vulkan through `ash`, to Bevy's
  schedules and windows, and reads configuration and scene files.
- `tests/` runs the library against concrete values and the crates it calls.

Crates that the library calls (`gltf`, `image`, `png`, `ddsfile`, `ktx2`,
`smallvec`, `glam`, `bevy_ecs`) stand behind small functions marked
`external_body`, whose doc comments say what is believed of the call.
