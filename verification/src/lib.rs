//! Graviplex: the logic of a small 2D game engine, verified.
//!
//! The modules hold the parts of the engine that decide things: tick-based
//! change detection, event channels, input edge detection, auto-tiling on
//! tile grids, collider filtering, system access conflicts, stage ordering,
//! and the map editor (asset palette, placed objects, selection, undo/redo,
//! input handling and the serializable map form).
pub mod asset_palette;
pub mod audio;
pub mod bits;
pub mod change_detection;
pub mod collision;
pub mod components;
mod decimal;
pub mod entity;
pub mod events;
pub mod input;
pub mod map_editor;
pub mod map_object;
pub mod param;
pub mod plugin;
pub mod schedule;
pub mod serialization;
pub mod stats;
pub mod str_map;
pub mod system;
pub mod tilemap;
pub mod tools;

pub use audio::{AudioClip, AudioSource, PlaybackSettings, PlaybackState};
pub use change_detection::{Added, AtomicTick, ChangeTick, ChangeTrackers, Changed, Tick};
pub use bits::{ColorBits, Vec2Bits};
pub use collision::{Collider, ColliderShape, CollisionEvent, CollisionLayer};
pub use components::{Despawn, Lifetime, Sprite, SpriteShape, Transform, Velocity, Visible};
pub use entity::Entity;
pub use input::InputState;
pub use events::{
    CollisionEndEvent, CollisionStartEvent, DeathEvent, DespawnEvent, Events, SpawnEvent,
    TriggerEvent,
};
pub use param::{Access, Local, Res, ResMut};
pub use plugin::MapEditorPlugin;
pub use schedule::{CoreStage, StageLabel};
pub use system::{
    FunctionSystem, SystemMarker0, SystemMarker1, SystemMarker2, SystemMarker3, SystemMarker4,
    WorldMarker, WorldResMarker,
};
pub use tilemap::{
    AutoTileConfig, NeighborFlags, Tile, TileAnimation, TileCollision, TileFlip, TileLayer, Tilemap,
};
pub use asset_palette::{AssetEntry, AssetKind, AssetPalette, TextureId};
pub use map_editor::{EditorConfig, EditorState, MapEditor};
pub use map_object::{
    CollisionShape, MapObject, MapObjectId, ObjectProperty, ObjectVisual, PlacedObject, PropertyValue,
};
pub use serialization::{MapData, SerializedObject, SerializedProperty};
pub use stats::{AppStats, FpsDisplayConfig};
pub use str_map::StrMap;
pub use tools::{EditorTool, GridConfig, ToolState};
