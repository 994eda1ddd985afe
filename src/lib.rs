//! A bank of simple-harmonic-motion oscillators whose phases, once shaped, drive three
//! outputs at once: audio, a laser frame, and DMX lighting.
//!
//! All real quantities are fixed-point integers in units of `ONE` (1.0).
pub mod fixed;
pub mod signal;
pub mod shm;
pub mod transform;
pub mod lighting;
pub mod sink;
pub mod control;

pub use fixed::{ONE, fract, div_floor, isqrt, qmul, qsqrt, qpow};
pub use signal::{Signal, SIGNAL_COUNT};
pub use shm::{Shm, ShmView, TICK_DIVISOR, OFFSET_DIVISOR};
pub use transform::{transform, transform_value, LEVEL_LIMIT};
pub use lighting::{
    DmxFrame, level_byte, fixture_bytes, split_universes, PIXELS_PER_LED_STRIP,
    DMX_CHANNELS_PER_LED, ADDRS_PER_STRIP, STRIPS_PER_UNIVERSE, LED_ADDRS_PER_UNIVERSE,
    LED_PIXELS_PER_UNIVERSE, NUM_LED_STRIPS, TOTAL_LED_PIXELS, MAX_UNIVERSE,
};
pub use sink::{SinkState, SinkAction, SinkEvent};
pub use control::{
    SignalParams, ParamsView, LaserPoint, laser_points, SinkKind, Sinks, SinkActions, TickOutput,
    compute_tick,
};
