//! Audio clip handles and playback states.
use crate::bits::ONE_F32_BITS;
use vstd::prelude::*;

verus! {

/// Handle to a loaded audio clip; `u32::MAX` is the null clip.
#[derive(Clone, Copy, Debug, PartialEq, Eq, Hash, Structural)]
pub struct AudioClip(pub u32);

impl AudioClip {
    /// The invalid (null) audio clip.
    pub fn none() -> (c: AudioClip)
        ensures
            c.0 == u32::MAX,
    {
        AudioClip(u32::MAX)
    }

    /// Whether this is a valid clip: anything but the null clip.
    pub fn is_valid(&self) -> (b: bool)
        ensures
            b == (self.0 != u32::MAX),
    {
        self.0 != u32::MAX
    }
}

/// Current state of audio playback.
#[derive(Clone, Copy, Debug, Default, PartialEq, Eq, Structural)]
pub enum PlaybackState {
    /// Not playing.
    #[default]
    Stopped,
    /// Currently playing.
    Playing,
    /// Paused (can resume).
    Paused,
}

/// The bits of the `f32` value `500.0`, the default spatial range.
pub const DEFAULT_SPATIAL_RANGE_BITS: u32 = 0x43fa_0000;

/// Settings for how audio plays; the numbers are `f32` values held as bits.
#[derive(Clone, Copy, Debug, PartialEq, Eq, Structural)]
pub struct PlaybackSettings {
    /// Volume (0 is silent, 1 is full volume), as `f32` bits.
    pub volume_bits: u32,
    /// Playback speed (1 is normal speed), as `f32` bits.
    pub speed_bits: u32,
    /// Whether the sound loops.
    pub looping: bool,
    /// Stereo pan (-1 left, 0 center, 1 right), as `f32` bits.
    pub pan_bits: u32,
}

impl PlaybackSettings {
    /// Default settings: full volume, normal speed, no looping, centered.
    pub fn new() -> (s: PlaybackSettings)
        ensures
            s == (PlaybackSettings { volume_bits: ONE_F32_BITS, speed_bits: ONE_F32_BITS, looping: false, pan_bits: 0 }),
    {
        PlaybackSettings { volume_bits: ONE_F32_BITS, speed_bits: ONE_F32_BITS, looping: false, pan_bits: 0 }
    }

    /// Enables looping.
    pub fn looping(self) -> (s: PlaybackSettings)
        ensures
            s == (PlaybackSettings { looping: true, ..self }),
    {
        PlaybackSettings { looping: true, ..self }
    }
}

impl Default for PlaybackSettings {
    fn default() -> (s: PlaybackSettings)
        ensures
            s == (PlaybackSettings { volume_bits: ONE_F32_BITS, speed_bits: ONE_F32_BITS, looping: false, pan_bits: 0 }),
    {
        PlaybackSettings::new()
    }
}

/// Audio source component for entities that emit sound.
#[derive(Clone, Copy, Debug, PartialEq, Eq, Structural)]
pub struct AudioSource {
    /// The clip to play.
    pub clip: AudioClip,
    /// Playback settings.
    pub settings: PlaybackSettings,
    /// Whether to use spatial (position-based) audio.
    pub spatial: bool,
    /// Range of spatial falloff, as `f32` bits.
    pub spatial_range_bits: u32,
    /// Current playback state.
    pub state: PlaybackState,
}

impl AudioSource {
    /// A stopped, non-spatial source of `clip` with default settings and a
    /// spatial range of 500.
    pub fn new(clip: AudioClip) -> (s: AudioSource)
        ensures
            s.clip == clip,
            s.settings == PlaybackSettings::new_spec(),
            !s.spatial,
            s.spatial_range_bits == DEFAULT_SPATIAL_RANGE_BITS,
            s.state == PlaybackState::Stopped,
    {
        AudioSource {
            clip,
            settings: PlaybackSettings::new(),
            spatial: false,
            spatial_range_bits: DEFAULT_SPATIAL_RANGE_BITS,
            state: PlaybackState::Stopped,
        }
    }

    /// Enables looping.
    pub fn looping(self) -> (s: AudioSource)
        ensures
            s == (AudioSource { settings: PlaybackSettings { looping: true, ..self.settings }, ..self }),
    {
        let mut s = self;
        s.settings.looping = true;
        s
    }

    /// Enables spatial audio with the current range.
    pub fn spatial(self) -> (s: AudioSource)
        ensures
            s == (AudioSource { spatial: true, ..self }),
    {
        let mut s = self;
        s.spatial = true;
        s
    }

    /// Starts playing.
    pub fn play(&mut self)
        ensures
            *final(self) == (AudioSource { state: PlaybackState::Playing, ..*old(self) }),
    {
        self.state = PlaybackState::Playing;
    }

    /// Pauses playback if playing; otherwise does nothing.
    pub fn pause(&mut self)
        ensures
            *final(self) == (AudioSource { state: after_pause(old(self).state), ..*old(self) }),
    {
        if self.state == PlaybackState::Playing {
            self.state = PlaybackState::Paused;
        }
    }

    /// Resumes playback if paused; otherwise does nothing.
    pub fn resume(&mut self)
        ensures
            *final(self) == (AudioSource { state: after_resume(old(self).state), ..*old(self) }),
    {
        if self.state == PlaybackState::Paused {
            self.state = PlaybackState::Playing;
        }
    }

    /// Stops playback.
    pub fn stop(&mut self)
        ensures
            *final(self) == (AudioSource { state: PlaybackState::Stopped, ..*old(self) }),
    {
        self.state = PlaybackState::Stopped;
    }

    /// Whether the source is playing.
    pub fn is_playing(&self) -> (b: bool)
        ensures
            b == (self.state == PlaybackState::Playing),
    {
        self.state == PlaybackState::Playing
    }
}

impl PlaybackSettings {
    /// The default settings.
    pub open spec fn new_spec() -> PlaybackSettings {
        PlaybackSettings { volume_bits: ONE_F32_BITS, speed_bits: ONE_F32_BITS, looping: false, pan_bits: 0 }
    }
}

/// Pausing a playing source pauses it; pausing in any other state does nothing.
pub open spec fn after_pause(s: PlaybackState) -> PlaybackState {
    if s == PlaybackState::Playing {
        PlaybackState::Paused
    } else {
        s
    }
}

/// Resuming a paused source plays it; resuming in any other state does nothing.
pub open spec fn after_resume(s: PlaybackState) -> PlaybackState {
    if s == PlaybackState::Paused {
        PlaybackState::Playing
    } else {
        s
    }
}

/// Resume undoes pause on a playing source; pausing twice is pausing once;
/// a stopped source stays stopped under pause and resume.
pub proof fn lemma_pause_resume(s: PlaybackState)
    ensures
        after_resume(after_pause(PlaybackState::Playing)) == PlaybackState::Playing,
        after_pause(after_pause(s)) == after_pause(s),
        after_resume(after_resume(s)) == after_resume(s),
        after_pause(PlaybackState::Stopped) == PlaybackState::Stopped,
        after_resume(PlaybackState::Stopped) == PlaybackState::Stopped,
{
}

} // verus!
