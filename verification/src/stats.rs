//! Run statistics and the settings of the on-screen frame-rate display.
//!
//! Times and rates are `f32` values held as bits.
use crate::bits::Vec2Bits;
use vstd::prelude::*;

verus! {

/// The bits of the `f32` value `10.0`, the default display offset.
pub const TEN_BITS: u32 = 0x4120_0000;

/// Statistics collected during a run.
#[derive(Debug, Clone, Copy, PartialEq, Eq, Structural)]
pub struct AppStats {
    /// Average frames per second over the run, as `f32` bits.
    pub average_fps_bits: u32,
    /// Number of frames rendered.
    pub frame_count: u32,
    /// Elapsed time in seconds, as `f32` bits.
    pub total_time_bits: u32,
}

impl Default for AppStats {
    /// No frames, no time.
    fn default() -> (s: AppStats)
        ensures
            s == (AppStats { average_fps_bits: 0, frame_count: 0, total_time_bits: 0 }),
    {
        AppStats { average_fps_bits: 0, frame_count: 0, total_time_bits: 0 }
    }
}

/// What the frame-rate display shows, and where.
#[derive(Debug, Clone, Copy, PartialEq, Eq, Structural)]
pub struct FpsDisplayConfig {
    /// Show the current rate.
    pub show_fps: bool,
    /// Show the frame time in milliseconds.
    pub show_frame_time: bool,
    /// Show the minimum and maximum rate.
    pub show_range: bool,
    /// Show the 1% low rate.
    pub show_one_percent_low: bool,
    /// Offset from the top-left corner.
    pub position: Vec2Bits,
}

/// A display configuration showing exactly the given items at `(10, 10)`.
pub open spec fn display(fps: bool, frame_time: bool, range: bool, low: bool) -> FpsDisplayConfig {
    FpsDisplayConfig {
        show_fps: fps,
        show_frame_time: frame_time,
        show_range: range,
        show_one_percent_low: low,
        position: Vec2Bits { x_bits: TEN_BITS, y_bits: TEN_BITS },
    }
}

impl FpsDisplayConfig {
    fn showing(fps: bool, frame_time: bool, range: bool, low: bool) -> (c: FpsDisplayConfig)
        ensures
            c == display(fps, frame_time, range, low),
    {
        FpsDisplayConfig {
            show_fps: fps,
            show_frame_time: frame_time,
            show_range: range,
            show_one_percent_low: low,
            position: Vec2Bits::new(TEN_BITS, TEN_BITS),
        }
    }

    /// Only the rate.
    pub fn minimal() -> (c: FpsDisplayConfig)
        ensures
            c == display(true, false, false, false),
    {
        FpsDisplayConfig::showing(true, false, false, false)
    }

    /// The rate, frame time and range.
    pub fn detailed() -> (c: FpsDisplayConfig)
        ensures
            c == display(true, true, true, false),
    {
        FpsDisplayConfig::showing(true, true, true, false)
    }

    /// Every statistic.
    pub fn full() -> (c: FpsDisplayConfig)
        ensures
            c == display(true, true, true, true),
    {
        FpsDisplayConfig::showing(true, true, true, true)
    }

    /// Nothing at all.
    pub fn hidden() -> (c: FpsDisplayConfig)
        ensures
            c == display(false, false, false, false),
    {
        FpsDisplayConfig::showing(false, false, false, false)
    }

    /// Also shows the frame time.
    pub fn with_frame_time(self) -> (c: FpsDisplayConfig)
        ensures
            c == (FpsDisplayConfig { show_frame_time: true, ..self }),
    {
        FpsDisplayConfig { show_frame_time: true, ..self }
    }

    /// Also shows the range.
    pub fn with_range(self) -> (c: FpsDisplayConfig)
        ensures
            c == (FpsDisplayConfig { show_range: true, ..self }),
    {
        FpsDisplayConfig { show_range: true, ..self }
    }

    /// Also shows the 1% low.
    pub fn with_one_percent_low(self) -> (c: FpsDisplayConfig)
        ensures
            c == (FpsDisplayConfig { show_one_percent_low: true, ..self }),
    {
        FpsDisplayConfig { show_one_percent_low: true, ..self }
    }

    /// Places the display at `(x, y)` (as `f32` bits).
    pub fn at_position(self, x_bits: u32, y_bits: u32) -> (c: FpsDisplayConfig)
        ensures
            c == (FpsDisplayConfig { position: Vec2Bits { x_bits, y_bits }, ..self }),
    {
        FpsDisplayConfig { position: Vec2Bits::new(x_bits, y_bits), ..self }
    }
}

impl Default for FpsDisplayConfig {
    /// Only the rate, at `(10, 10)`.
    fn default() -> (c: FpsDisplayConfig)
        ensures
            c == display(true, false, false, false),
    {
        FpsDisplayConfig::minimal()
    }
}

} // verus!
