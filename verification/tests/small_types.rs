use graviplex::{
    Access, AssetKind, AudioClip, AudioSource, CollisionLayer, CoreStage, EditorTool,
    PlaybackState,
};
use std::any::TypeId;

#[test]
fn test_audio_clip_validity() {
    let valid = AudioClip(0);
    let invalid = AudioClip::none();

    assert!(valid.is_valid());
    assert!(!invalid.is_valid());
}

#[test]
fn test_audio_source_state() {
    let mut source = AudioSource::new(AudioClip(0));
    assert!(!source.is_playing());

    source.play();
    assert!(source.is_playing());

    source.pause();
    assert_eq!(source.state, PlaybackState::Paused);

    source.resume();
    assert!(source.is_playing());

    source.stop();
    assert_eq!(source.state, PlaybackState::Stopped);
}

#[test]
fn pause_and_resume_do_nothing_when_stopped() {
    let mut source = AudioSource::new(AudioClip(3)).looping().spatial();
    source.pause();
    assert_eq!(source.state, PlaybackState::Stopped);
    source.resume();
    assert_eq!(source.state, PlaybackState::Stopped);
    assert!(source.settings.looping);
    assert!(source.spatial);
    assert_eq!(f32::from_bits(source.spatial_range_bits), 500.0);
    assert_eq!(f32::from_bits(source.settings.volume_bits), 1.0);
}

#[test]
fn test_collision_layer_operations() {
    let layer_a = CollisionLayer::new(0);
    let layer_b = CollisionLayer::new(1);
    let combined = layer_a | layer_b;

    assert!(combined.contains(layer_a));
    assert!(combined.contains(layer_b));
    assert!(layer_a.overlaps(combined));
    assert!(!layer_a.overlaps(layer_b));
}

#[test]
fn collision_layer_masks() {
    assert_eq!(CollisionLayer::new(31).0, 1u32 << 31);
    assert_eq!((CollisionLayer::all() & CollisionLayer::new(4)).0, 16);
    assert!(!CollisionLayer::none().overlaps(CollisionLayer::all()));
    assert!(CollisionLayer::all().contains(CollisionLayer::new(7)));
    assert!(CollisionLayer::new(7).contains(CollisionLayer::none()));
}

#[test]
fn test_access_conflicts() {
    let read1 = Access::ReadResource(TypeId::of::<i32>());
    let read2 = Access::ReadResource(TypeId::of::<i32>());
    let write1 = Access::WriteResource(TypeId::of::<i32>());
    let write2 = Access::WriteResource(TypeId::of::<i32>());
    let other = Access::ReadResource(TypeId::of::<f32>());

    assert!(!read1.conflicts_with(&read2));
    assert!(write1.conflicts_with(&write2));
    assert!(read1.conflicts_with(&write1));
    assert!(write1.conflicts_with(&read1));
    assert!(!read1.conflicts_with(&other));
    assert!(!write1.conflicts_with(&other));

    let world = Access::World;
    assert!(world.conflicts_with(&read1));
    assert!(world.conflicts_with(&write1));
}

#[test]
fn component_and_resource_accesses_do_not_mix() {
    let wc = Access::WriteComponent(TypeId::of::<u8>());
    let rc = Access::ReadComponent(TypeId::of::<u8>());
    let wr = Access::WriteResource(TypeId::of::<u8>());
    assert!(wc.conflicts_with(&rc));
    assert!(rc.conflicts_with(&wc));
    assert!(!rc.conflicts_with(&rc.clone()));
    assert!(!wc.conflicts_with(&wr));
    assert!(Access::World.conflicts_with(&Access::World));
}

#[test]
fn core_stages_in_order() {
    assert_eq!(
        CoreStage::all(),
        &[
            CoreStage::First,
            CoreStage::PreUpdate,
            CoreStage::Update,
            CoreStage::PostUpdate,
            CoreStage::Last
        ]
    );
}

#[test]
fn editor_tools() {
    let all = EditorTool::all();
    assert_eq!(all.len(), 6);
    assert_eq!(all[4], EditorTool::Paint);
    assert_eq!(EditorTool::Measure.name(), "Measure");
    assert_eq!(EditorTool::Pan.icon(), "✋");
    assert_eq!(EditorTool::Paint.shortcut(), Some('B'));
    assert_eq!(EditorTool::default(), EditorTool::Select);
    assert_ne!(AssetKind::Circle, AssetKind::Rect);
}

#[test]
fn resource_accessors() {
    let value = 5u32;
    let res = graviplex::Res::new(&value);
    assert_eq!(*res, 5);
    assert_eq!(*res.into_inner(), 5);
    let mut counter = 1u32;
    {
        let mut rm = graviplex::ResMut::new(&mut counter);
        *rm += 1;
    }
    assert_eq!(counter, 2);
    let mut state = 0u8;
    {
        let mut local = graviplex::Local::new(&mut state);
        *local += 3;
    }
    assert_eq!(state, 3);
}

#[test]
fn test_fps_display_config() {
    let config = graviplex::FpsDisplayConfig::detailed();
    assert!(config.show_fps);
    assert!(config.show_frame_time);
    assert!(config.show_range);
    assert!(!config.show_one_percent_low);

    let full = graviplex::FpsDisplayConfig::full();
    assert!(full.show_one_percent_low);

    let hidden = graviplex::FpsDisplayConfig::hidden();
    assert!(!hidden.show_fps);
}

#[test]
fn fps_display_builders_and_stats() {
    let c = graviplex::FpsDisplayConfig::default().with_range().with_one_percent_low().at_position(5.0f32.to_bits(), 6.0f32.to_bits());
    assert!(c.show_fps && c.show_range && c.show_one_percent_low && !c.show_frame_time);
    assert_eq!(c.position, graviplex::Vec2Bits::new(5.0f32.to_bits(), 6.0f32.to_bits()));
    assert_eq!(graviplex::FpsDisplayConfig::minimal(), graviplex::FpsDisplayConfig::default());
    assert!(graviplex::FpsDisplayConfig::hidden().with_frame_time().show_frame_time);
    let s = graviplex::AppStats::default();
    assert_eq!(s.frame_count, 0);
    assert_eq!(s.average_fps_bits, 0);
}

#[test]
fn run_once_runs_first_time_only() {
    let mut once = graviplex::schedule::RunOnce::new();
    assert!(!once.has_run());
    assert!(once.begin_run());
    assert!(once.has_run());
    assert!(!once.begin_run());
    once.reset();
    assert!(!once.has_run());
    assert!(once.begin_run());
}
