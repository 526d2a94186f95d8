//! Radial launcher layout and interaction engine.
//!
//! A ring of eight compass-direction slots plus dynamically placed overflow
//! subslots, driven by cursor position. All geometry is computed in exact
//! fixed-point arithmetic: angles are `i64` units with `FULL_TURN` units to a
//! full circle, lengths are milli-pixels, and dimensionless factors (squish
//! scale, monitor scale factor) are milli-units.

pub mod allocator;
pub mod angle;
pub mod apps;
pub mod direction;
pub mod geometry;
pub mod matching;
pub mod segments;
pub mod slots;
pub mod state;
pub mod text;
pub mod trig;

use vstd::prelude::*;

verus! {

/// Number of compass-direction slots on the ring.
pub const SLOT_COUNT: usize = 8;

/// Fixed-point angle units in one full turn (2^24); stands for 2*pi radians.
pub const FULL_TURN: i64 = 16777216;

/// Half a turn (pi radians) in angle units.
pub const HALF_TURN: i64 = 8388608;

/// A quarter turn (pi/2 radians) in angle units.
pub const QUARTER_TURN: i64 = 4194304;

/// An eighth of a turn (pi/4 radians) in angle units.
pub const EIGHTH_TURN: i64 = 2097152;

/// The angular step between adjacent compass slots (a full turn over
/// `SLOT_COUNT` slots).
pub const ANGLE_STEP: i64 = 2097152;

/// Largest magnitude accepted by angle arithmetic entry points; generous
/// headroom over anything the engine produces.
pub const ANGLE_ARG_LIMIT: i64 = 0x4000_0000_0000;

/// One in milli-units, the fixed-point unit of scale factors.
pub const SCALE_ONE: i64 = 1000;

/// Cap on the squish scale, in milli-units (2.5x).
pub const SCALE_CAP_MILLI: i64 = 2500;

/// Reference monitor height in pixels; a monitor of this height has scale
/// factor one.
pub const REFERENCE_HEIGHT: i64 = 1440;

/// Largest monitor height in pixels the engine accepts.
pub const MAX_MONITOR_HEIGHT: i64 = 100000;

/// Upper bound on the milli-scale factor, from `MAX_MONITOR_HEIGHT`.
pub const MAX_SCALE_MILLI: i64 = 70000;

/// Largest cursor or center coordinate magnitude, in milli-pixels.
pub const COORD_LIMIT: i64 = 1_000_000_000;

/// Dead-zone radius in milli-pixels, before scaling.
pub const INNER_RADIUS_MPX: i64 = 48000;

/// Activation-ring radius in milli-pixels, before scaling.
pub const OUTER_RADIUS_MPX: i64 = 128000;

/// Orbital distance of the main slots from the center, in milli-pixels,
/// before scaling.
pub const MENU_RADIUS_MPX: i64 = 120000;

/// Base radius of a main slot's circle in milli-pixels, before scaling.
pub const SLOT_RADIUS_MPX: i64 = 52000;

/// Orbital distance of the subslot ring in milli-pixels, before scaling:
/// 1.6 times the activation-ring radius.
pub const SUBSLOT_ORBIT_MPX: i64 = 204800;

/// Radius of a subslot's circle in milli-pixels, before scaling: 0.4 times
/// the base slot radius.
pub const SUBSLOT_RADIUS_MPX: i64 = 20800;

/// Fixed content scale of a subslot, in milli-units (0.6x).
pub const SUBSLOT_SCALE_MILLI: i64 = 600;

/// Numerator and denominator of the padding factor (1.3) applied to a slot's
/// radius when computing its blocking footprint.
pub const PADDING_NUM: i64 = 13;

/// Denominator of the padding factor applied to a slot's blocking footprint.
pub const PADDING_DEN: i64 = 10;

/// Angular threshold (about 0.1 radians) under which the total free space
/// counts as none and the whole circle is freed for subslots.
pub const FREE_EPSILON: i64 = 267003;

/// Number of hotkeys in the subslot pool; subslots beyond it are dropped.
pub const SUB_KEY_COUNT: usize = 12;

} // verus!
