//! Kinematic character controller for a tile-based 2D platformer.
//!
//! Per-tick digital input is turned into collision-aware motion: velocity
//! integration with an acceleration/friction blend, an iterative slide-step
//! resolution of the desired displacement against collision contacts, a
//! ground-snap correction, and a short-hop gravity modulator that shapes
//! variable-height jumps.
//!
//! All quantities are fixed-point integers in milli-units (one unit is
//! `SCALE` = 1000), so every computation here is exact and verified. The
//! collision backend itself is an external collaborator: the slide resolver
//! consumes its reported move results and contacts as plain values, one
//! iteration at a time, and the caller performs the actual shape casts
//! between iterations.

pub mod input;
pub mod kinematic_actor;
pub mod math;
pub mod movement;
pub mod platformer;
pub mod slide;
pub mod vector2;
