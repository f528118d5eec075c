# graviplex

The decision-making core of a small 2D game engine, written in Verus: each
function carries a `requires`/`ensures` contract that the verifier proves.

## Layout

- `src/` — the verified library.
  - `change_detection`, `events`, `entity`, `param`, `schedule`, `system`:
    the ECS core (ticks and change trackers, double-buffered event channels,
    entity handles and their bit patterns, system parameters and access
    conflicts, stage order and the run-once startup flag, function-system
    records).
  - `input`: keyboard and mouse state with per-frame press/release edges.
  - `tilemap`: tiles, layers, tilemaps, auto-tiling with neighbour masks.
  - `collision`: layer masks, colliders and collision events.
  - `components`, `audio`, `stats`: component and settings data.
  - `map_object`, `asset_palette`, `map_editor`, `serialization`, `tools`,
    `plugin`: the map editor — object types, the palette, placed objects
    indexed by identifier, selection, bounded undo/redo, what each frame of
    input does (shortcuts and the select, place, erase and paint tools), the
    serializable map form and the asset-directory scan rules.
  - `bits`, `str_map`, `decimal`: small supporting types.
- `tests/` — tests of the library on concrete values.
- `app/` — what the verifier does not see: the `hecs`-backed world, the
  type-erased event bus and boxed systems, all floating-point geometry and
  timing, JSON files through `serde_json`, and directory walks.

Floating-point values are held in the library as their `f32` bit patterns;
the library stores and moves them, and `app/` computes with them.
