//! Actor state and configuration for the kinematic controller.
//!
//! World constants, the per-actor movement configuration, the mutable
//! kinematic state, and the resolver that turns configuration plus ground
//! state into the effective movement properties of the tick.

use vstd::prelude::*;

use crate::math::mul_milli;
use crate::math::mul_milli_spec;
use crate::math::sqrt_floor;
use crate::math::velocity_required_for_jump;
use crate::math::SCALE;
use crate::vector2::bounded_pair;
use crate::vector2::Vector2;

verus! {

/// Gravity strength in milli-units per second squared (200 units/s^2).
pub const GRAVITY_COEFFICIENT: i64 = 200_000;

/// World units per level tile, in milli-units (8 units per tile).
pub const UNITS_PER_TILE: i64 = 8_000;

/// Magnitude cap on configuration values, in milli-units.
pub const PROP_LIMIT: i64 = 1_000_000;

/// Magnitude cap on a velocity component, in milli-units per second.
pub const VEL_LIMIT: i64 = 100_000_000_000;

/// Magnitude cap on a per-tick translation component, in milli-units.
pub const TRANSLATION_LIMIT: i64 = 2_000_000_000_000;

/// Largest accepted tick length, in milli-seconds (ten seconds).
pub const DT_LIMIT: i64 = 10_000;

pub open spec fn gravity_dir_spec() -> (int, int) {
    (0, -(SCALE as int))
}

/// The unit vector along gravity: straight down.
pub fn gravity_dir() -> (r: Vector2)
    ensures
        r@ == gravity_dir_spec(),
{
    Vector2 { x: 0, y: -SCALE }
}

/// Per-actor movement configuration, immutable during a tick. All scalars
/// are in milli-units; the `air_*_mod` factors are milli-fractions
/// (`SCALE` means unchanged in the air).
#[derive(Clone, Copy, Debug, PartialEq, Eq, Structural)]
pub struct KaProperties {
    pub speed: i64,
    pub acceleration: i64,
    pub friction: i64,
    pub air_speed_mod: i64,
    pub air_acceleration_mod: i64,
    pub air_friction_mod: i64,
    pub jump_height: i64,
}

impl KaProperties {
    /// Configuration sanity: rates and factors are nonnegative and modest;
    /// the jump height may be negative (a rejected configuration that turns
    /// the jump into a no-op).
    pub open spec fn valid(self) -> bool {
        &&& 0 <= self.speed <= PROP_LIMIT
        &&& 0 <= self.acceleration <= PROP_LIMIT
        &&& 0 <= self.friction <= PROP_LIMIT
        &&& 0 <= self.air_speed_mod <= PROP_LIMIT
        &&& 0 <= self.air_acceleration_mod <= PROP_LIMIT
        &&& 0 <= self.air_friction_mod <= PROP_LIMIT
        &&& -PROP_LIMIT <= self.jump_height <= PROP_LIMIT
    }

    /// The radicand of the jump-speed formula `sqrt(2 * g * h)`, with the
    /// height converted from tiles to world units.
    pub open spec fn jump_radicand(self) -> int {
        2 * mul_milli_spec(self.jump_height as int, UNITS_PER_TILE as int) * (
        GRAVITY_COEFFICIENT as int)
    }

    /// The launch speed needed to reach `jump_height` tiles, or zero when
    /// the configuration is invalid (negative radicand).
    pub open spec fn jump_speed_spec(self) -> int {
        if self.jump_radicand() >= 0 {
            sqrt_floor(self.jump_radicand())
        } else {
            0
        }
    }

    /// The launch speed that reaches the configured jump height; an invalid
    /// configuration yields zero, turning the jump into a no-op.
    pub fn jump_velocity(&self) -> (r: i64)
        requires
            self.valid(),
        ensures
            r == self.jump_speed_spec(),
            0 <= r <= JUMP_SPEED_LIMIT,
    {
        let height = mul_milli(self.jump_height, UNITS_PER_TILE);
        match velocity_required_for_jump(height, GRAVITY_COEFFICIENT) {
            Some(velocity) => {
                proof {
                    lemma_jump_speed_bound(*self);
                }
                velocity
            },
            None => 0,
        }
    }
}

impl Default for KaProperties {
    /// The reference platformer tuning.
    fn default() -> (r: KaProperties)
        ensures
            r.speed == 50_000,
            r.acceleration == 30_000,
            r.friction == 30_000,
            r.air_speed_mod == SCALE,
            r.air_acceleration_mod == SCALE,
            r.air_friction_mod == SCALE,
            r.jump_height == 2_100,
            r.valid(),
    {
        KaProperties {
            speed: 50_000,
            acceleration: 30_000,
            friction: 30_000,
            air_speed_mod: SCALE,
            air_acceleration_mod: SCALE,
            air_friction_mod: SCALE,
            jump_height: 2_100,
        }
    }
}

/// Mutable per-actor kinematic state. The velocity is a derived cache,
/// recomputed each tick from the translation actually achieved.
#[derive(Clone, Copy, Debug, PartialEq, Eq, Structural)]
pub struct KaState {
    pub last_translation: Vector2,
    pub velocity: Vector2,
    pub on_ground: bool,
    pub is_jumping: bool,
}

impl KaState {
    pub open spec fn valid(self) -> bool {
        &&& bounded_pair(self.velocity@, VEL_LIMIT as int)
        &&& bounded_pair(self.last_translation@, TRANSLATION_LIMIT as int)
    }

    pub open spec fn can_jump_spec(self) -> bool {
        self.on_ground && !self.is_jumping
    }

    /// Jump-start eligibility: grounded and not already mid-jump, exactly.
    pub fn can_jump(&self) -> (r: bool)
        ensures
            r == (self.on_ground && !self.is_jumping),
    {
        self.on_ground && !self.is_jumping
    }
}

impl Default for KaState {
    /// At rest on nothing: zero vectors, airborne, not jumping.
    fn default() -> (r: KaState)
        ensures
            r.last_translation@ == (0int, 0int),
            r.velocity@ == (0int, 0int),
            r.on_ground == false,
            r.is_jumping == false,
            r.valid(),
    {
        KaState {
            last_translation: Vector2 { x: 0, y: 0 },
            velocity: Vector2 { x: 0, y: 0 },
            on_ground: false,
            is_jumping: false,
        }
    }
}

/// The kind of kinematic actor; only the platformer behaviour exists.
#[derive(Clone, Copy, Debug, PartialEq, Eq, Structural)]
pub enum KaType {
    Platformer,
}

impl Default for KaType {
    fn default() -> (r: KaType)
        ensures
            r == KaType::Platformer,
    {
        KaType::Platformer
    }
}

/// Marker carrying the actor kind.
#[derive(Clone, Copy, Debug, PartialEq, Eq, Structural)]
pub struct KinematicActor {
    pub actor: KaType,
}

impl Default for KinematicActor {
    fn default() -> (r: KinematicActor)
        ensures
            r.actor == KaType::Platformer,
    {
        KinematicActor { actor: KaType::Platformer }
    }
}

/// Magnitude cap on an effective rate: a configured rate scaled by the
/// largest air factor.
pub const RATE_LIMIT: i64 = 1_000_000_000;

/// Upper bound on any jump speed a valid configuration can ask for.
pub const JUMP_SPEED_LIMIT: i64 = 1_800_000;

/// A valid configuration's jump speed stays under `JUMP_SPEED_LIMIT`.
pub proof fn lemma_jump_speed_bound(props: KaProperties)
    requires
        props.valid(),
    ensures
        0 <= props.jump_speed_spec() <= JUMP_SPEED_LIMIT,
{
    let h = mul_milli_spec(props.jump_height as int, UNITS_PER_TILE as int);
    crate::math::lemma_mul_bounds2(
        props.jump_height as int,
        UNITS_PER_TILE as int,
        PROP_LIMIT as int,
        UNITS_PER_TILE as int,
    );
    crate::math::lemma_div_tz_mag(
        (props.jump_height as int) * (UNITS_PER_TILE as int),
        SCALE as int,
        8_000_000,
    );
    let rad = props.jump_radicand();
    if rad >= 0 {
        crate::math::lemma_sqrt_floor_props(rad);
        let s = crate::math::sqrt_floor(rad);
        assert(2 * h * (GRAVITY_COEFFICIENT as int) <= 3_200_000_000_000int) by (nonlinear_arith)
            requires
                -8_000_000 <= h <= 8_000_000,
                GRAVITY_COEFFICIENT == 200_000,
        ;
        assert(s * s <= (JUMP_SPEED_LIMIT as int) * (JUMP_SPEED_LIMIT as int)) by {
            assert((JUMP_SPEED_LIMIT as int) * (JUMP_SPEED_LIMIT as int) == 3_240_000_000_000int)
                by (nonlinear_arith)
                requires
                    JUMP_SPEED_LIMIT == 1_800_000,
            ;
        }
        crate::math::lemma_sq_ordered(s, JUMP_SPEED_LIMIT as int);
    }
}

/// The effective speed of one tick: configured on the ground, scaled by
/// the air factor otherwise.
pub open spec fn eff_speed_spec(props: KaProperties, on_ground: bool) -> int {
    if on_ground {
        props.speed as int
    } else {
        mul_milli_spec(props.speed as int, props.air_speed_mod as int)
    }
}

pub open spec fn eff_acceleration_spec(props: KaProperties, on_ground: bool) -> int {
    if on_ground {
        props.acceleration as int
    } else {
        mul_milli_spec(props.acceleration as int, props.air_acceleration_mod as int)
    }
}

pub open spec fn eff_friction_spec(props: KaProperties, on_ground: bool) -> int {
    if on_ground {
        props.friction as int
    } else {
        mul_milli_spec(props.friction as int, props.air_friction_mod as int)
    }
}

/// The effective movement rates of one tick, after the air factors.
#[derive(Clone, Copy, Debug, PartialEq, Eq, Structural)]
pub struct MovementProperties {
    pub speed: i64,
    pub acceleration: i64,
    pub friction: i64,
}

impl MovementProperties {
    pub open spec fn valid(self) -> bool {
        &&& 0 <= self.speed <= RATE_LIMIT
        &&& 0 <= self.acceleration <= RATE_LIMIT
        &&& 0 <= self.friction <= RATE_LIMIT
    }

    /// On the ground the configured rates apply as they are; in the air
    /// each is scaled by its `air_*_mod` milli-fraction.
    pub fn from_props_and_state(props: &KaProperties, state: &KaState) -> (r: MovementProperties)
        requires
            props.valid(),
        ensures
            r.speed == eff_speed_spec(*props, state.on_ground),
            r.acceleration == eff_acceleration_spec(*props, state.on_ground),
            r.friction == eff_friction_spec(*props, state.on_ground),
            r.valid(),
    {
        if state.on_ground {
            MovementProperties {
                speed: props.speed,
                acceleration: props.acceleration,
                friction: props.friction,
            }
        } else {
            let r = MovementProperties {
                speed: mul_milli(props.speed, props.air_speed_mod),
                acceleration: mul_milli(props.acceleration, props.air_acceleration_mod),
                friction: mul_milli(props.friction, props.air_friction_mod),
            };
            proof {
                lemma_air_rate_bounds(props.speed as int, props.air_speed_mod as int);
                lemma_air_rate_bounds(props.acceleration as int, props.air_acceleration_mod as int);
                lemma_air_rate_bounds(props.friction as int, props.air_friction_mod as int);
            }
            r
        }
    }
}

/// A rate scaled by a nonnegative milli-fraction stays within the rate cap.
proof fn lemma_air_rate_bounds(rate: int, factor: int)
    requires
        0 <= rate <= PROP_LIMIT,
        0 <= factor <= PROP_LIMIT,
    ensures
        0 <= mul_milli_spec(rate, factor) <= RATE_LIMIT,
{
    crate::math::lemma_mul_bounds2(rate, factor, PROP_LIMIT as int, PROP_LIMIT as int);
    assert(rate * factor >= 0) by (nonlinear_arith)
        requires
            rate >= 0,
            factor >= 0,
    ;
    assert((PROP_LIMIT as int) * (PROP_LIMIT as int) == (SCALE as int) * (RATE_LIMIT as int))
        by (nonlinear_arith)
        requires
            SCALE == 1000,
            PROP_LIMIT == 1_000_000,
            RATE_LIMIT == 1_000_000_000,
    ;
    crate::math::lemma_div_tz_mag(rate * factor, SCALE as int, RATE_LIMIT as int);
}

} // verus!
