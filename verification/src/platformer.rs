//! The short-hop gravity modulator.
//!
//! A platformer actor that releases the jump button early gets extra
//! downward acceleration while its jump lasts, cutting the jump short. The
//! extra gravity is strongest near launch and fades toward the apex, as a
//! linear blend driven by how much of the launch speed is still left. This
//! runs before the velocity integrator of the same tick, since it mutates
//! the velocity the integrator reads.

use vstd::prelude::*;

use crate::input::just_released_spec;
use crate::input::KaInput;
use crate::kinematic_actor::KaProperties;
use crate::kinematic_actor::KaState;
use crate::kinematic_actor::DT_LIMIT;
use crate::kinematic_actor::GRAVITY_COEFFICIENT;
use crate::kinematic_actor::VEL_LIMIT;
use crate::math::clamp_spec;
use crate::math::div_trunc;
use crate::math::div_tz;
use crate::math::lemma_div_tz_mag;
use crate::math::lemma_mul_bounds2;
use crate::math::lerp;
use crate::math::lerp_spec;
use crate::math::mul_milli;
use crate::math::mul_milli_spec;
use crate::math::SCALE;
use crate::vector2::bounded_pair;
use crate::vector2::Vector2;

verus! {

/// Extra gravity multiplier near launch, as a milli-fraction added on top
/// of normal gravity (three extra gravities).
pub const SHORT_HOP_GRAVITY_MULT_START: i64 = 3_000;

/// Extra gravity multiplier near the apex (half an extra gravity).
pub const SHORT_HOP_GRAVITY_MULT_STOP: i64 = 500;

/// Per-actor sub-state of the modulator, meaningful only while the actor
/// is jumping.
#[derive(Clone, Copy, Debug, PartialEq, Eq, Structural)]
pub struct Platformer {
    pub is_short_hopping: bool,
}

impl Default for Platformer {
    fn default() -> (r: Platformer)
        ensures
            r.is_short_hopping == false,
    {
        Platformer { is_short_hopping: false }
    }
}

/// Whether the short hop is active after this tick's transitions: it
/// starts when the jump button is released mid-jump, and it ends the
/// moment the jump itself ends.
pub open spec fn short_hop_active_spec(p: Platformer, state: KaState, input: KaInput) -> bool {
    state.is_jumping && (p.is_short_hopping || just_released_spec(input.jump))
}

/// How far the actor still is from its launch speed, as a clamped
/// milli-ratio of the velocity's component along gravity to the jump
/// speed: one near launch, zero at the apex. A configuration without a
/// real jump speed saturates the ratio (full extra gravity) unless the
/// actor is not moving vertically at all.
pub open spec fn short_hop_ratio_spec(state: KaState, props: KaProperties) -> int {
    let proj = if state.velocity@.1 >= 0 {
        state.velocity@.1
    } else {
        -state.velocity@.1
    };
    let js = props.jump_speed_spec();
    if js <= 0 {
        if proj == 0 {
            0
        } else {
            SCALE as int
        }
    } else {
        clamp_spec(div_tz(proj * (SCALE as int), js), 0, SCALE as int)
    }
}

/// The downward velocity change one tick of short-hop gravity applies.
pub open spec fn short_hop_gravity_spec(state: KaState, props: KaProperties, dt: int) -> int {
    let mult = lerp_spec(
        SHORT_HOP_GRAVITY_MULT_STOP as int,
        SHORT_HOP_GRAVITY_MULT_START as int,
        short_hop_ratio_spec(state, props),
    );
    mul_milli_spec(mul_milli_spec(GRAVITY_COEFFICIENT as int, mult), dt)
}

/// The velocity after the modulator ran: extra gravity subtracted from the
/// vertical component while the short hop is active.
pub open spec fn short_hop_velocity_spec(
    p: Platformer,
    state: KaState,
    props: KaProperties,
    input: KaInput,
    dt: int,
) -> (int, int) {
    if short_hop_active_spec(p, state, input) {
        (state.velocity@.0, state.velocity@.1 - short_hop_gravity_spec(state, props, dt))
    } else {
        state.velocity@
    }
}

/// One tick of the modulator: enter the short hop when the jump button is
/// released mid-jump, leave it when the jump has ended, and while it is
/// active add the blended extra gravity to the velocity the integrator
/// will read.
pub fn platformer_step(
    platformer: &mut Platformer,
    state: &mut KaState,
    input: &KaInput,
    props: &KaProperties,
    dt: i64,
)
    requires
        bounded_pair(old(state).velocity@, VEL_LIMIT as int),
        props.valid(),
        0 <= dt <= DT_LIMIT,
    ensures
        final(platformer).is_short_hopping == short_hop_active_spec(
            *old(platformer),
            *old(state),
            *input,
        ),
        final(state).velocity@ == short_hop_velocity_spec(
            *old(platformer),
            *old(state),
            *props,
            *input,
            dt as int,
        ),
        bounded_pair(final(state).velocity@, VEL_LIMIT + 6_000_000),
        final(state).last_translation == old(state).last_translation,
        final(state).on_ground == old(state).on_ground,
        final(state).is_jumping == old(state).is_jumping,
{
    if !platformer.is_short_hopping && state.is_jumping && input.jump.just_released() {
        platformer.is_short_hopping = true;
    }
    if platformer.is_short_hopping && !state.is_jumping {
        platformer.is_short_hopping = false;
    }
    if platformer.is_short_hopping {
        let proj = if state.velocity.y >= 0 {
            state.velocity.y
        } else {
            -state.velocity.y
        };
        let js = props.jump_velocity();
        let ratio: i64;
        if js <= 0 {
            ratio = if proj == 0 {
                0
            } else {
                SCALE
            };
        } else {
            proof {
                lemma_mul_bounds2(proj as int, SCALE as int, VEL_LIMIT as int, SCALE as int);
            }
            let raw = div_trunc((proj as i128) * (SCALE as i128), js as i128);
            ratio = if raw < 0 {
                0
            } else if raw > SCALE as i128 {
                SCALE
            } else {
                raw as i64
            };
        }
        let mult = lerp(SHORT_HOP_GRAVITY_MULT_STOP, SHORT_HOP_GRAVITY_MULT_START, ratio);
        let gm = mul_milli(GRAVITY_COEFFICIENT, mult);
        proof {
            lemma_mul_bounds2(GRAVITY_COEFFICIENT as int, mult as int, 200_000, 3_000);
            lemma_div_tz_mag(
                (GRAVITY_COEFFICIENT as int) * (mult as int),
                SCALE as int,
                600_000,
            );
            lemma_mul_bounds2(gm as int, dt as int, 600_000, DT_LIMIT as int);
            lemma_div_tz_mag((gm as int) * (dt as int), SCALE as int, 6_000_000);
        }
        let dv = mul_milli(gm, dt);
        state.velocity = Vector2 { x: state.velocity.x, y: state.velocity.y - dv };
    }
}

} // verus!
