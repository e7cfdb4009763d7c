//! The per-tick velocity integration, ground snap and tick finish.
//!
//! One tick runs, in order: `integrate_velocity` (desired velocity, the
//! acceleration/friction blend, gravity and the jump impulse), the slide
//! resolution of the desired displacement against the collision backend,
//! `finish_slide` (adopting the achieved translation and ground flag),
//! `apply_ground_snap` (pulling a grounded actor flush onto the floor from
//! a downward shape cast the caller performs), and `finish_tick` (clearing
//! a finished jump and recomputing the velocity from the translation
//! actually achieved). The collision backend's calls happen between these
//! functions, in the caller; everything decided here is exact and proved.

use vstd::prelude::*;

use crate::input::just_pressed_spec;
use crate::input::KaInput;
use crate::kinematic_actor::eff_acceleration_spec;
use crate::kinematic_actor::eff_friction_spec;
use crate::kinematic_actor::eff_speed_spec;
use crate::kinematic_actor::lemma_jump_speed_bound;
use crate::kinematic_actor::KaProperties;
use crate::kinematic_actor::KaState;
use crate::kinematic_actor::MovementProperties;
use crate::kinematic_actor::DT_LIMIT;
use crate::kinematic_actor::GRAVITY_COEFFICIENT;
use crate::kinematic_actor::TRANSLATION_LIMIT;
use crate::kinematic_actor::UNITS_PER_TILE;
use crate::math::clamp_spec;
use crate::math::div_trunc;
use crate::math::div_tz;
use crate::math::isqrt;
use crate::math::lemma_div_tz_mag;
use crate::math::lemma_mul_bounds2;
use crate::math::lemma_sq_ordered;
use crate::math::lerp;
use crate::math::lerp_spec;
use crate::math::move_towards_vec2;
use crate::math::move_towards_spec;
use crate::math::mul_milli;
use crate::math::mul_milli_spec;
use crate::math::sqrt_floor;
use crate::math::velocity_required_for_jump;
use crate::math::SCALE;
use crate::slide::SlideResolver;
use crate::slide::DISP_LIMIT;
use crate::vector2::bounded_pair;
use crate::vector2::dot_pair;
use crate::vector2::norm_sq_pair;
use crate::vector2::sub_pair;
use crate::vector2::Vector2;

verus! {

/// Below this squared speed (in milli-units) the blend collapses to zero:
/// a hundredth of a square unit.
pub const BLEND_VEL_EPS_SQ: i64 = 10_000;

/// Bound on the velocity `integrate_velocity` accepts; slightly wider than
/// the state's own bound so a short-hop-modulated velocity still fits.
pub const VEL_INTEG_LIMIT: i64 = 100_010_000_000;

/// Bound on the velocity `integrate_velocity` hands back.
pub const VEL_OUT_LIMIT: i64 = 100_100_000_000;

/// Autostep: smallest ledge width the backend may step onto (half a unit).
pub const AUTOSTEP_MIN_WIDTH: i64 = 500;

/// Autostep: tallest ledge the backend may step over (half a unit).
pub const AUTOSTEP_MAX_HEIGHT: i64 = 500;

/// Slope angle bound for climbing and sliding, in milli-degrees.
pub const SLOPE_ANGLE_MDEG: i64 = 50_000;

/// Skin offset the backend keeps between the shape and the world.
pub const MOVE_OFFSET: i64 = 100;

/// How far below the actor the ground-snap cast probes (one unit).
pub const GROUND_SNAP_DISTANCE: i64 = 1_000;

/// Skin kept between the actor and the floor when snapping down.
pub const GROUND_SNAP_SKIN: i64 = 300;

/// Push-back applied when the ground-snap cast reports penetration.
pub const GROUND_SNAP_PUSHBACK: i64 = 200;

/// Horizontal narrowing of the cast shape, as a milli-fraction, so walls
/// beside the actor do not read as floor.
pub const SNAP_SHAPE_NARROW: i64 = 980;

/// The fixed policy for the backend's shape moves during slide resolution.
pub struct MovePolicy {
    /// The up axis (opposite to gravity).
    pub up: Vector2,
    pub autostep_min_width: i64,
    pub autostep_max_height: i64,
    /// The backend must not slide on its own; the resolver does it.
    pub slide: bool,
    pub max_slope_climb_angle_mdeg: i64,
    pub min_slope_slide_angle_mdeg: i64,
    /// Snap-to-ground distance, absent while jumping.
    pub snap_to_ground: Option<i64>,
    pub offset: i64,
}

/// The policy for one backend move: fixed tunables, with ground snapping
/// only when not mid-jump.
pub fn move_policy(is_jumping: bool) -> (r: MovePolicy)
    ensures
        r.up@ == (0int, SCALE as int),
        r.autostep_min_width == AUTOSTEP_MIN_WIDTH,
        r.autostep_max_height == AUTOSTEP_MAX_HEIGHT,
        r.slide == false,
        r.max_slope_climb_angle_mdeg == SLOPE_ANGLE_MDEG,
        r.min_slope_slide_angle_mdeg == SLOPE_ANGLE_MDEG,
        r.snap_to_ground == if is_jumping {
            Option::<i64>::None
        } else {
            Option::<i64>::Some(GROUND_SNAP_DISTANCE)
        },
        r.offset == MOVE_OFFSET,
{
    MovePolicy {
        up: Vector2 { x: 0, y: SCALE },
        autostep_min_width: AUTOSTEP_MIN_WIDTH,
        autostep_max_height: AUTOSTEP_MAX_HEIGHT,
        slide: false,
        max_slope_climb_angle_mdeg: SLOPE_ANGLE_MDEG,
        min_slope_slide_angle_mdeg: SLOPE_ANGLE_MDEG,
        snap_to_ground: if is_jumping {
            None
        } else {
            Some(GROUND_SNAP_DISTANCE)
        },
        offset: MOVE_OFFSET,
    }
}

/// The tick's desired horizontal velocity: the input axis scaled by the
/// effective speed.
pub open spec fn target_velocity_spec(props: KaProperties, input: KaInput, on_ground: bool) -> (
    int,
    int,
) {
    (
        mul_milli_spec(input.movement@.0, eff_speed_spec(props, on_ground)),
        mul_milli_spec(input.movement@.1, eff_speed_spec(props, on_ground)),
    )
}

/// The acceleration/friction blend factor in `[0, SCALE]`, measured
/// through the cosine of the angle between the current velocity and the
/// velocity change still wanted: zero when continuing straight on (or when
/// either vector is negligible, where the angle is undefined), `SCALE`
/// when fully reversing, half way when perpendicular.
pub open spec fn blend_spec(v: (int, int), target: (int, int)) -> int {
    let delta = sub_pair(target, v);
    if norm_sq_pair(v) <= BLEND_VEL_EPS_SQ as int {
        0
    } else if norm_sq_pair(delta) == 0 {
        0
    } else {
        let d1 = sqrt_floor(norm_sq_pair(v));
        let d2 = sqrt_floor(norm_sq_pair(delta));
        let cosm = div_tz(dot_pair(v, delta) * (SCALE as int), d1 * d2);
        clamp_spec(div_tz((SCALE as int) - cosm, 2), 0, SCALE as int)
    }
}

/// The velocity after acceleration and gravity, before any jump impulse.
pub open spec fn pre_jump_velocity_spec(
    state: KaState,
    props: KaProperties,
    input: KaInput,
    dt: int,
) -> (int, int) {
    let target = target_velocity_spec(props, input, state.on_ground);
    let blend = blend_spec(state.velocity@, target);
    let rate = lerp_spec(
        eff_acceleration_spec(props, state.on_ground),
        eff_friction_spec(props, state.on_ground),
        blend,
    );
    let change_speed = mul_milli_spec(rate, eff_speed_spec(props, state.on_ground));
    let amount = div_tz(change_speed * dt, SCALE as int);
    let to = (target.0, state.velocity@.1);
    let moved = move_towards_spec(state.velocity@, to, amount);
    if state.on_ground {
        moved
    } else {
        (moved.0, moved.1 - div_tz((GRAVITY_COEFFICIENT as int) * dt, SCALE as int))
    }
}

/// A jump starts this tick: the jump button just went down, the actor is
/// eligible (grounded, not already jumping) and the configured jump height
/// gives a real launch speed.
pub open spec fn jump_starts_spec(state: KaState, props: KaProperties, input: KaInput) -> bool {
    just_pressed_spec(input.jump) && state.can_jump_spec() && props.jump_radicand() >= 0
}

/// Whether the actor is mid-jump after integration.
pub open spec fn integrate_jump_spec(state: KaState, props: KaProperties, input: KaInput) -> bool {
    state.is_jumping || jump_starts_spec(state, props, input)
}

/// The velocity the integration hands to slide resolution: the pre-jump
/// velocity, with its vertical component replaced by the launch speed when
/// a jump starts.
pub open spec fn integrate_velocity_spec(
    state: KaState,
    props: KaProperties,
    input: KaInput,
    dt: int,
) -> (int, int) {
    let v = pre_jump_velocity_spec(state, props, input, dt);
    if jump_starts_spec(state, props, input) {
        (v.0, props.jump_speed_spec())
    } else {
        v
    }
}

/// Computes the tick's velocity: desired velocity from the input, a
/// clamped step from the current velocity toward it at the blended
/// acceleration/friction rate, explicit Euler gravity while airborne, and
/// the jump impulse replacing the vertical component on an eligible
/// just-pressed jump (which also marks the actor as jumping).
pub fn integrate_velocity(
    state: &mut KaState,
    props: &KaProperties,
    input: &KaInput,
    dt: i64,
) -> (v: Vector2)
    requires
        bounded_pair(old(state).velocity@, VEL_INTEG_LIMIT as int),
        props.valid(),
        input.valid(),
        0 < dt <= DT_LIMIT,
    ensures
        v@ == integrate_velocity_spec(*old(state), *props, *input, dt as int),
        bounded_pair(v@, VEL_OUT_LIMIT as int),
        final(state).is_jumping == integrate_jump_spec(*old(state), *props, *input),
        final(state).velocity == old(state).velocity,
        final(state).last_translation == old(state).last_translation,
        final(state).on_ground == old(state).on_ground,
{
    let movement = MovementProperties::from_props_and_state(props, state);
    proof {
        lemma_mul_bounds2(input.movement@.0, movement.speed as int, SCALE as int, 1_000_000_000);
        lemma_mul_bounds2(input.movement@.1, movement.speed as int, SCALE as int, 1_000_000_000);
        lemma_div_tz_mag(input.movement@.0 * (movement.speed as int), SCALE as int, 1_000_000_000);
        lemma_div_tz_mag(input.movement@.1 * (movement.speed as int), SCALE as int, 1_000_000_000);
    }
    let target = Vector2 {
        x: mul_milli(input.movement.x, movement.speed),
        y: mul_milli(input.movement.y, movement.speed),
    };
    // Blend factor between acceleration (continuing) and friction
    // (reversing), from the angle between velocity and wanted change.
    let vnorm = state.velocity.norm_sq();
    let delta = Vector2 {
        x: target.x - state.velocity.x,
        y: target.y - state.velocity.y,
    };
    let blend: i64;
    if vnorm > BLEND_VEL_EPS_SQ as i128 {
        let dnorm = delta.norm_sq();
        if dnorm == 0 {
            blend = 0;
        } else {
            let d1 = isqrt(vnorm as u128);
            let d2 = isqrt(dnorm as u128);
            let dot = state.velocity.dot(&delta);
            proof {
                lemma_mul_bounds2(
                    state.velocity@.0,
                    delta@.0,
                    100_010_000_000int,
                    102_000_000_000,
                );
                lemma_mul_bounds2(
                    state.velocity@.1,
                    delta@.1,
                    100_010_000_000int,
                    102_000_000_000,
                );
                assert((d1 as int) * (d1 as int) <= 150_000_000_000int * 150_000_000_000int) by {
                    crate::vector2::lemma_norm_sq_bounds(state.velocity@, 100_010_000_000int);
                    assert(2 * 100_010_000_000int * 100_010_000_000int <= 150_000_000_000int
                        * 150_000_000_000int) by (nonlinear_arith);
                }
                lemma_sq_ordered(d1 as int, 150_000_000_000int);
                assert((d2 as int) * (d2 as int) <= 150_000_000_000int * 150_000_000_000int) by {
                    crate::vector2::lemma_norm_sq_bounds(delta@, 102_000_000_000int);
                    assert(2 * 102_000_000_000int * 102_000_000_000int <= 150_000_000_000int
                        * 150_000_000_000int) by (nonlinear_arith);
                }
                lemma_sq_ordered(d2 as int, 150_000_000_000int);
                crate::math::lemma_sqrt_floor_pos(vnorm as int);
                crate::math::lemma_sqrt_floor_pos(dnorm as int);
                assert((d1 as int) * (d2 as int) >= 1) by (nonlinear_arith)
                    requires
                        d1 as int >= 1,
                        d2 as int >= 1,
                ;
                lemma_mul_bounds2(d1 as int, d2 as int, 150_000_000_000int, 150_000_000_000int);
                lemma_mul_bounds2(
                    dot_pair(state.velocity@, delta@),
                    SCALE as int,
                    40_800_000_000_000_000_000_000int,
                    SCALE as int,
                );
                assert(((d1 as int) * (d2 as int)) * 40_800_000_000_000_000_000_000_000int
                    >= 40_800_000_000_000_000_000_000_000int) by (nonlinear_arith)
                    requires
                        (d1 as int) * (d2 as int) >= 1,
                ;
                lemma_div_tz_mag(
                    dot_pair(state.velocity@, delta@) * (SCALE as int),
                    (d1 as int) * (d2 as int),
                    40_800_000_000_000_000_000_000_000int,
                );
            }
            let cosm = div_trunc(dot * (SCALE as i128), (d1 as i128) * (d2 as i128));
            let raw = div_trunc((SCALE as i128) - cosm, 2);
            blend = if raw < 0 {
                0
            } else if raw > SCALE as i128 {
                SCALE
            } else {
                raw as i64
            };
        }
    } else {
        blend = 0;
    }
    let rate = lerp(movement.acceleration, movement.friction, blend);
    let change_speed = mul_milli(rate, movement.speed);
    proof {
        assert((rate as int) * (movement.speed as int) >= 0) by (nonlinear_arith)
            requires
                rate >= 0,
                movement.speed >= 0,
        ;
        lemma_mul_bounds2(rate as int, movement.speed as int, 1_000_000_000, 1_000_000_000);
        lemma_div_tz_mag(
            (rate as int) * (movement.speed as int),
            SCALE as int,
            1_000_000_000_000_000int,
        );
        assert(change_speed >= 0) by {
            crate::math::lemma_div_tz_between(
                (rate as int) * (movement.speed as int),
                1,
                1,
            );
        }
        lemma_mul_bounds2(
            change_speed as int,
            dt as int,
            1_000_000_000_000_000int,
            DT_LIMIT as int,
        );
        assert((change_speed as int) * (dt as int) >= 0) by (nonlinear_arith)
            requires
                change_speed >= 0,
                dt >= 0,
        ;
        lemma_div_tz_mag(
            (change_speed as int) * (dt as int),
            SCALE as int,
            10_000_000_000_000_000int,
        );
    }
    let amount128 = (change_speed as i128) * (dt as i128);
    let amount = div_trunc(amount128, SCALE as i128);
    let to = Vector2 { x: target.x, y: state.velocity.y };
    let moved = move_towards_vec2(state.velocity, to, amount as i64);
    let mut velocity = moved;
    if !state.on_ground {
        proof {
            lemma_mul_bounds2(
                GRAVITY_COEFFICIENT as int,
                dt as int,
                GRAVITY_COEFFICIENT as int,
                DT_LIMIT as int,
            );
            lemma_div_tz_mag(
                (GRAVITY_COEFFICIENT as int) * (dt as int),
                SCALE as int,
                2_000_000int,
            );
        }
        let gd = div_trunc((GRAVITY_COEFFICIENT as i128) * (dt as i128), SCALE as i128);
        velocity = Vector2 { x: velocity.x, y: velocity.y - (gd as i64) };
    }
    if input.jump.just_pressed() && state.can_jump() {
        let height = mul_milli(props.jump_height, UNITS_PER_TILE);
        match velocity_required_for_jump(height, GRAVITY_COEFFICIENT) {
            Some(jump_velocity) => {
                proof {
                    lemma_jump_speed_bound(*props);
                }
                velocity = Vector2 { x: velocity.x, y: jump_velocity };
                state.is_jumping = true;
            },
            None => {
                // invalid jump configuration: the jump is a no-op
            },
        }
    }
    velocity
}

/// Jump gating: a jump can start only when the actor is eligible
/// (`can_jump`: grounded and not already jumping) on a just-pressed jump
/// with a valid configuration; integration never clears a running jump,
/// and the tick finish clears it exactly when the achieved displacement
/// stops moving upward.
pub proof fn lemma_jump_gating(state: KaState, props: KaProperties, input: KaInput)
    ensures
        integrate_jump_spec(state, props, input) == (state.is_jumping || (just_pressed_spec(
            input.jump,
        ) && state.can_jump_spec() && props.jump_radicand() >= 0)),
        !state.is_jumping ==> (integrate_jump_spec(state, props, input)
            ==> state.can_jump_spec()),
        finish_jump_spec(state) == (state.is_jumping && state.last_translation@.1 > 0),
{
}

/// Adopts the outcome of a finished slide resolution: the translation
/// actually achieved and the ground flag of its last iteration.
pub fn finish_slide(state: &mut KaState, resolver: &SlideResolver)
    requires
        resolver.wf(),
        resolver.done,
    ensures
        final(state).last_translation == resolver.moved,
        final(state).on_ground == resolver.grounded,
        final(state).velocity == old(state).velocity,
        final(state).is_jumping == old(state).is_jumping,
        bounded_pair(final(state).last_translation@, TRANSLATION_LIMIT as int),
{
    state.last_translation = resolver.moved;
    state.on_ground = resolver.grounded;
}

/// What the downward ground-probe cast reported: the surface normal, the
/// travelled distance, and whether the shapes already overlapped.
#[derive(Clone, Copy, Debug, PartialEq, Eq, Structural)]
pub struct CastHit {
    pub normal: Vector2,
    pub toi: i64,
    pub penetrating: bool,
}

/// The snap declares the actor grounded exactly when it is not mid-jump
/// and the probe hit a floor-like surface (normal opposing gravity).
pub open spec fn snap_grounds_spec(state: KaState, hit: Option<CastHit>) -> bool {
    !state.is_jumping && match hit {
        Some(h) => h.normal@.1 > 0,
        None => false,
    }
}

/// The position correction of the snap: down to the surface, keeping the
/// skin distance, and pushed back up a little out of a penetrating hit.
pub open spec fn snap_delta_spec(state: KaState, hit: Option<CastHit>) -> (int, int) {
    if snap_grounds_spec(state, hit) {
        match hit {
            Some(h) => {
                let down = if h.toi - GROUND_SNAP_SKIN > 0 {
                    h.toi - GROUND_SNAP_SKIN as int
                } else {
                    0
                };
                let push = if h.penetrating {
                    GROUND_SNAP_PUSHBACK as int
                } else {
                    0
                };
                (0, -down + push)
            },
            None => (0, 0),
        }
    } else {
        (0, 0)
    }
}

/// Applies the ground snap from the caller's downward shape cast (absent
/// while jumping or when nothing was hit): sets the definitive ground
/// flag, overriding what slide resolution found, and returns the position
/// correction to apply to the actor's transform.
pub fn apply_ground_snap(state: &mut KaState, hit: Option<CastHit>) -> (delta: Vector2)
    requires
        match hit {
            Some(h) => 0 <= h.toi <= GROUND_SNAP_DISTANCE,
            None => true,
        },
    ensures
        delta@ == snap_delta_spec(*old(state), hit),
        final(state).on_ground == snap_grounds_spec(*old(state), hit),
        final(state).velocity == old(state).velocity,
        final(state).last_translation == old(state).last_translation,
        final(state).is_jumping == old(state).is_jumping,
{
    if state.is_jumping {
        state.on_ground = false;
        return Vector2 { x: 0, y: 0 };
    }
    match hit {
        Some(h) => {
            if h.normal.y > 0 {
                let down = if h.toi - GROUND_SNAP_SKIN > 0 {
                    h.toi - GROUND_SNAP_SKIN
                } else {
                    0
                };
                let push = if h.penetrating {
                    GROUND_SNAP_PUSHBACK
                } else {
                    0
                };
                state.on_ground = true;
                Vector2 { x: 0, y: -down + push }
            } else {
                state.on_ground = false;
                Vector2 { x: 0, y: 0 }
            }
        },
        None => {
            state.on_ground = false;
            Vector2 { x: 0, y: 0 }
        },
    }
}

/// Whether the actor is still mid-jump after the tick finish: only while
/// the achieved translation still moves upward.
pub open spec fn finish_jump_spec(state: KaState) -> bool {
    state.is_jumping && state.last_translation@.1 > 0
}

/// The velocity cache after the tick finish: the achieved translation per
/// second, its vertical component zeroed on the ground; unchanged for a
/// degenerate tick (`dt == 0`).
pub open spec fn finish_velocity_spec(state: KaState, dt: int) -> (int, int) {
    if dt <= 0 {
        state.velocity@
    } else {
        let v = (
            div_tz(state.last_translation@.0 * (SCALE as int), dt),
            div_tz(state.last_translation@.1 * (SCALE as int), dt),
        );
        if state.on_ground {
            (v.0, 0)
        } else {
            v
        }
    }
}

/// Finishes the tick: clears the jump once the achieved displacement's
/// projection on gravity is non-negative (no longer net-upward), then
/// recomputes the velocity from the translation actually achieved —
/// zeroing its vertical component on the ground so snap corrections do not
/// leak into the next tick — skipping the recompute on a degenerate tick.
pub fn finish_tick(state: &mut KaState, dt: i64)
    requires
        bounded_pair(old(state).last_translation@, TRANSLATION_LIMIT as int),
        0 <= dt <= DT_LIMIT,
    ensures
        final(state).is_jumping == finish_jump_spec(*old(state)),
        final(state).velocity@ == finish_velocity_spec(*old(state), dt as int),
        final(state).last_translation == old(state).last_translation,
        final(state).on_ground == old(state).on_ground,
{
    if state.last_translation.y <= 0 {
        state.is_jumping = false;
    }
    if dt > 0 {
        proof {
            lemma_mul_bounds2(
                state.last_translation@.0,
                SCALE as int,
                TRANSLATION_LIMIT as int,
                SCALE as int,
            );
            lemma_mul_bounds2(
                state.last_translation@.1,
                SCALE as int,
                TRANSLATION_LIMIT as int,
                SCALE as int,
            );
            assert((dt as int) * (2_000_000_000_000_000int) >= 2_000_000_000_000_000int)
                by (nonlinear_arith)
                requires
                    dt >= 1,
            ;
            lemma_div_tz_mag(
                state.last_translation@.0 * (SCALE as int),
                dt as int,
                2_000_000_000_000_000int,
            );
            lemma_div_tz_mag(
                state.last_translation@.1 * (SCALE as int),
                dt as int,
                2_000_000_000_000_000int,
            );
        }
        let vx = div_trunc((state.last_translation.x as i128) * (SCALE as i128), dt as i128);
        let vy = div_trunc((state.last_translation.y as i128) * (SCALE as i128), dt as i128);
        state.velocity = Vector2 {
            x: vx as i64,
            y: if state.on_ground {
                0
            } else {
                vy as i64
            },
        };
    }
}

/// The displacement handed to slide resolution: the tick's velocity over
/// the tick length.
pub open spec fn desired_displacement_spec(v: (int, int), dt: int) -> (int, int) {
    (div_tz(v.0 * dt, SCALE as int), div_tz(v.1 * dt, SCALE as int))
}

pub fn desired_displacement(velocity: Vector2, dt: i64) -> (r: Vector2)
    requires
        bounded_pair(velocity@, VEL_OUT_LIMIT as int),
        0 <= dt <= DT_LIMIT,
    ensures
        r@ == desired_displacement_spec(velocity@, dt as int),
        bounded_pair(r@, DISP_LIMIT as int),
{
    proof {
        lemma_mul_bounds2(velocity@.0, dt as int, VEL_OUT_LIMIT as int, DT_LIMIT as int);
        lemma_mul_bounds2(velocity@.1, dt as int, VEL_OUT_LIMIT as int, DT_LIMIT as int);
        lemma_div_tz_mag(velocity@.0 * (dt as int), SCALE as int, 1_001_000_000_000int);
        lemma_div_tz_mag(velocity@.1 * (dt as int), SCALE as int, 1_001_000_000_000int);
    }
    let rx = div_trunc((velocity.x as i128) * (dt as i128), SCALE as i128);
    let ry = div_trunc((velocity.y as i128) * (dt as i128), SCALE as i128);
    Vector2 { x: rx as i64, y: ry as i64 }
}

} // verus!
