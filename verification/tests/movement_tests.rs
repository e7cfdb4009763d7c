use platformer_controller::input::KaInput;
use platformer_controller::input::KaInputButton;
use platformer_controller::kinematic_actor::KaProperties;
use platformer_controller::kinematic_actor::KaState;
use platformer_controller::movement::apply_ground_snap;
use platformer_controller::movement::desired_displacement;
use platformer_controller::movement::finish_slide;
use platformer_controller::movement::finish_tick;
use platformer_controller::movement::integrate_velocity;
use platformer_controller::movement::move_policy;
use platformer_controller::movement::CastHit;
use platformer_controller::slide::MoveResult;
use platformer_controller::slide::SlideResolver;
use platformer_controller::vector2::Vector2;

fn idle_input() -> KaInput {
    KaInput::default()
}

fn right_input() -> KaInput {
    KaInput { movement: Vector2 { x: 1_000, y: 0 }, jump: KaInputButton::default() }
}

fn grounded_state() -> KaState {
    let mut s = KaState::default();
    s.on_ground = true;
    s
}

fn floor_hit() -> Option<CastHit> {
    Some(CastHit { normal: Vector2 { x: 0, y: 1_000 }, toi: 300, penetrating: false })
}

/// One whole tick over flat, unobstructed ground: the backend grants the
/// full move and the snap probe finds the floor right at the skin offset.
fn flat_ground_tick(state: &mut KaState, props: &KaProperties, input: &KaInput, dt: i64) {
    let velocity = integrate_velocity(state, props, input, dt);
    let desired = desired_displacement(velocity, dt);
    let mut resolver = SlideResolver::new(desired);
    while let Some(request) = resolver.request() {
        resolver.step(&MoveResult {
            effective_translation: request,
            grounded: true,
            contacts: Vec::new(),
        });
    }
    finish_slide(state, &resolver);
    let hit = if state.is_jumping { None } else { floor_hit() };
    let _delta = apply_ground_snap(state, hit);
    finish_tick(state, dt);
}

#[test]
fn move_policy_snaps_only_when_not_jumping() {
    let p = move_policy(false);
    assert_eq!(p.snap_to_ground, Some(1_000));
    assert_eq!(p.up, Vector2 { x: 0, y: 1_000 });
    assert!(!p.slide);
    assert_eq!(p.autostep_min_width, 500);
    assert_eq!(p.autostep_max_height, 500);
    assert_eq!(p.max_slope_climb_angle_mdeg, 50_000);
    assert_eq!(p.min_slope_slide_angle_mdeg, 50_000);
    assert_eq!(p.offset, 100);
    let q = move_policy(true);
    assert_eq!(q.snap_to_ground, None);
}

#[test]
fn grounded_run_up_reaches_speed_without_exceeding_it() {
    // grounded actor, movement (1, 0), the reference tuning, dt 0.1 s:
    // horizontal speed rises to 50 and never beyond
    let props = KaProperties::default();
    let input = right_input();
    let mut state = grounded_state();
    let mut reached_at = None;
    for tick in 1..=8 {
        flat_ground_tick(&mut state, &props, &input, 100);
        assert!(state.velocity.x <= 50_000);
        assert!(state.velocity.x >= 0);
        assert_eq!(state.velocity.y, 0);
        if reached_at.is_none() && state.velocity.x == 50_000 {
            reached_at = Some(tick);
        }
    }
    // full speed is reached within 0.4 s
    assert!(reached_at.is_some());
    assert!(reached_at.unwrap() <= 4);
    assert!(state.on_ground);
}

#[test]
fn acceleration_forward_friction_when_reversing() {
    // distinct rates make the blend observable: continuing in the same
    // direction accelerates, reversing uses the friction rate
    let props = KaProperties { acceleration: 10_000, friction: 30_000, ..KaProperties::default() };

    let mut forward = grounded_state();
    forward.velocity = Vector2 { x: 10_000, y: 0 };
    let v = integrate_velocity(&mut forward, &props, &right_input(), 10);
    // acceleration rate: 10 * 50 * 0.01 = 5 units gained
    assert_eq!(v, Vector2 { x: 15_000, y: 0 });

    let left = KaInput { movement: Vector2 { x: -1_000, y: 0 }, jump: KaInputButton::default() };
    let mut reversing = grounded_state();
    reversing.velocity = Vector2 { x: 10_000, y: 0 };
    let v = integrate_velocity(&mut reversing, &props, &left, 10);
    // friction rate: 30 * 50 * 0.01 = 15 units shed
    assert_eq!(v, Vector2 { x: -5_000, y: 0 });
}

#[test]
fn integrate_velocity_airborne_applies_gravity() {
    let props = KaProperties::default();
    let input = idle_input();
    let mut state = KaState::default();
    let v = integrate_velocity(&mut state, &props, &input, 100);
    // explicit Euler gravity: 200 units/s^2 over 0.1 s
    assert_eq!(v, Vector2 { x: 0, y: -20_000 });
    assert!(!state.is_jumping);
}

#[test]
fn integrate_velocity_jump_replaces_vertical_component() {
    let props = KaProperties::default();
    let mut input = idle_input();
    input.jump.set(true);
    let mut state = grounded_state();
    state.velocity = Vector2 { x: 10_000, y: -3_000 };
    let v = integrate_velocity(&mut state, &props, &input, 100);
    assert_eq!(v.y, 81_975);
    assert!(state.is_jumping);
}

#[test]
fn integrate_velocity_no_jump_when_airborne_or_jumping() {
    let props = KaProperties::default();
    let mut input = idle_input();
    input.jump.set(true);
    // airborne: not eligible
    let mut state = KaState::default();
    let v = integrate_velocity(&mut state, &props, &input, 100);
    assert!(!state.is_jumping);
    assert_eq!(v.y, -20_000);
    // already jumping: not eligible again
    let mut state = grounded_state();
    state.is_jumping = true;
    integrate_velocity(&mut state, &props, &input, 100);
    assert!(state.is_jumping);
}

#[test]
fn integrate_velocity_invalid_jump_config_is_a_no_op() {
    let props = KaProperties { jump_height: -2_100, ..KaProperties::default() };
    let mut input = idle_input();
    input.jump.set(true);
    let mut state = grounded_state();
    let v = integrate_velocity(&mut state, &props, &input, 100);
    assert!(!state.is_jumping);
    assert_eq!(v.y, 0);
}

#[test]
fn ground_snap_pulls_to_floor_with_skin() {
    let mut state = KaState::default();
    let hit = Some(CastHit { normal: Vector2 { x: 0, y: 1_000 }, toi: 500, penetrating: false });
    let delta = apply_ground_snap(&mut state, hit);
    assert_eq!(delta, Vector2 { x: 0, y: -200 });
    assert!(state.on_ground);
}

#[test]
fn ground_snap_pushes_back_out_of_penetration() {
    let mut state = KaState::default();
    let hit = Some(CastHit { normal: Vector2 { x: 0, y: 1_000 }, toi: 800, penetrating: true });
    let delta = apply_ground_snap(&mut state, hit);
    assert_eq!(delta, Vector2 { x: 0, y: -300 });
    assert!(state.on_ground);
}

#[test]
fn ground_snap_ignores_walls_and_misses() {
    let mut state = KaState::default();
    state.on_ground = true;
    let wall = Some(CastHit { normal: Vector2 { x: -1_000, y: 0 }, toi: 100, penetrating: false });
    let delta = apply_ground_snap(&mut state, wall);
    assert_eq!(delta, Vector2 { x: 0, y: 0 });
    assert!(!state.on_ground);
    state.on_ground = true;
    let delta = apply_ground_snap(&mut state, None);
    assert_eq!(delta, Vector2 { x: 0, y: 0 });
    assert!(!state.on_ground);
}

#[test]
fn ground_snap_skipped_while_jumping() {
    let mut state = KaState::default();
    state.is_jumping = true;
    state.on_ground = true;
    let delta = apply_ground_snap(&mut state, floor_hit());
    assert_eq!(delta, Vector2 { x: 0, y: 0 });
    assert!(!state.on_ground);
}

#[test]
fn finish_slide_adopts_resolution_outcome() {
    let mut state = KaState::default();
    let desired = Vector2::new(4_000, 0);
    let mut r = SlideResolver::new(desired);
    r.step(&MoveResult { effective_translation: desired, grounded: true, contacts: Vec::new() });
    finish_slide(&mut state, &r);
    assert_eq!(state.last_translation, desired);
    assert!(state.on_ground);
}

#[test]
fn finish_tick_clears_jump_once_not_rising() {
    let mut state = KaState::default();
    state.is_jumping = true;
    state.last_translation = Vector2 { x: 0, y: 5 };
    finish_tick(&mut state, 100);
    assert!(state.is_jumping);
    state.last_translation = Vector2 { x: 0, y: 0 };
    finish_tick(&mut state, 100);
    assert!(!state.is_jumping);
}

#[test]
fn finish_tick_recomputes_velocity_from_translation() {
    let mut state = KaState::default();
    state.last_translation = Vector2 { x: 5_000, y: -300 };
    finish_tick(&mut state, 100);
    assert_eq!(state.velocity, Vector2 { x: 50_000, y: -3_000 });
    // on the ground the vertical component is zeroed, so snap corrections
    // do not leak into the next tick's perceived speed
    state.on_ground = true;
    finish_tick(&mut state, 100);
    assert_eq!(state.velocity, Vector2 { x: 50_000, y: 0 });
}

#[test]
fn finish_tick_degenerate_dt_keeps_velocity() {
    let mut state = KaState::default();
    state.velocity = Vector2 { x: 7, y: 8 };
    state.last_translation = Vector2 { x: 5_000, y: 5_000 };
    finish_tick(&mut state, 0);
    assert_eq!(state.velocity, Vector2 { x: 7, y: 8 });
}

#[test]
fn desired_displacement_scales_by_tick_length() {
    assert_eq!(
        desired_displacement(Vector2::new(50_000, -20_000), 100),
        Vector2 { x: 5_000, y: -2_000 }
    );
    assert_eq!(desired_displacement(Vector2::new(50_000, 0), 0), Vector2 { x: 0, y: 0 });
}
