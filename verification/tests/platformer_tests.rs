use platformer_controller::input::KaInput;
use platformer_controller::input::KaInputButton;
use platformer_controller::kinematic_actor::KaProperties;
use platformer_controller::kinematic_actor::KaState;
use platformer_controller::movement::apply_ground_snap;
use platformer_controller::movement::desired_displacement;
use platformer_controller::movement::finish_slide;
use platformer_controller::movement::finish_tick;
use platformer_controller::movement::integrate_velocity;
use platformer_controller::platformer::platformer_step;
use platformer_controller::platformer::Platformer;
use platformer_controller::slide::MoveResult;
use platformer_controller::slide::SlideResolver;
use platformer_controller::vector2::Vector2;

fn released_jump() -> KaInput {
    let mut input = KaInput::default();
    input.jump.set(true);
    input.jump.set(false);
    input
}

fn held_jump() -> KaInput {
    let mut input = KaInput::default();
    input.jump.set(true);
    input.jump.set(true);
    input
}

/// One whole tick in free air (no collisions, no floor below): the
/// modulator first, then integration, slide and finish.
fn airborne_tick(
    platformer: &mut Platformer,
    state: &mut KaState,
    props: &KaProperties,
    input: &KaInput,
    dt: i64,
) {
    platformer_step(platformer, state, input, props, dt);
    let velocity = integrate_velocity(state, props, input, dt);
    let desired = desired_displacement(velocity, dt);
    let mut resolver = SlideResolver::new(desired);
    while let Some(request) = resolver.request() {
        resolver.step(&MoveResult {
            effective_translation: request,
            grounded: false,
            contacts: Vec::new(),
        });
    }
    finish_slide(state, &resolver);
    let _delta = apply_ground_snap(state, None);
    finish_tick(state, dt);
}

#[test]
fn short_hop_starts_on_release_mid_jump() {
    let props = KaProperties::default();
    let mut platformer = Platformer::default();
    let mut state = KaState::default();
    state.is_jumping = true;
    state.velocity = Vector2 { x: 0, y: 80_000 };
    platformer_step(&mut platformer, &mut state, &released_jump(), &props, 100);
    assert!(platformer.is_short_hopping);
    // rising at 80 of 81.975 launch speed: ratio 975, extra gravity
    // multiplier lerp(0.5, 3.0, 0.975) = 2.937, so 200 * 2.937 * 0.1 less
    assert_eq!(state.velocity, Vector2 { x: 0, y: 80_000 - 58_740 });
}

#[test]
fn no_short_hop_without_a_jump() {
    let props = KaProperties::default();
    let mut platformer = Platformer::default();
    let mut state = KaState::default();
    state.velocity = Vector2 { x: 0, y: 80_000 };
    platformer_step(&mut platformer, &mut state, &released_jump(), &props, 100);
    assert!(!platformer.is_short_hopping);
    assert_eq!(state.velocity, Vector2 { x: 0, y: 80_000 });
}

#[test]
fn no_short_hop_while_button_stays_down() {
    let props = KaProperties::default();
    let mut platformer = Platformer::default();
    let mut state = KaState::default();
    state.is_jumping = true;
    state.velocity = Vector2 { x: 0, y: 80_000 };
    platformer_step(&mut platformer, &mut state, &held_jump(), &props, 100);
    assert!(!platformer.is_short_hopping);
    assert_eq!(state.velocity, Vector2 { x: 0, y: 80_000 });
}

#[test]
fn short_hop_clears_after_jump_ends_without_extra_gravity() {
    let props = KaProperties::default();
    let mut platformer = Platformer { is_short_hopping: true };
    let mut state = KaState::default();
    state.is_jumping = false;
    state.velocity = Vector2 { x: 0, y: -9_000 };
    platformer_step(&mut platformer, &mut state, &KaInput::default(), &props, 100);
    assert!(!platformer.is_short_hopping);
    assert_eq!(state.velocity, Vector2 { x: 0, y: -9_000 });
}

#[test]
fn early_release_cuts_the_jump_short() {
    // an actor that rises with the button released loses upward speed
    // faster than one holding the button, and both jump flags clear in
    // the tick whose achieved displacement stops moving upward
    let props = KaProperties::default();
    let mut platformer = Platformer::default();
    let mut state = KaState::default();
    state.is_jumping = true;
    state.velocity = Vector2 { x: 0, y: 80_000 };

    // tick of the release
    airborne_tick(&mut platformer, &mut state, &props, &released_jump(), 100);
    assert!(platformer.is_short_hopping);
    assert!(state.is_jumping);
    assert!(state.velocity.y < 80_000);

    let idle = KaInput::default();
    let mut ticks = 0;
    while state.is_jumping {
        airborne_tick(&mut platformer, &mut state, &props, &idle, 100);
        ticks += 1;
        assert!(ticks < 50);
    }
    // extra gravity applied only while the jump lasted; the next modulator
    // run clears the sub-state before touching the velocity
    assert!(platformer.is_short_hopping);
    let v_before = state.velocity;
    platformer_step(&mut platformer, &mut state, &idle, &props, 100);
    assert!(!platformer.is_short_hopping);
    assert_eq!(state.velocity, v_before);
}

#[test]
fn short_hop_falls_faster_than_full_jump() {
    let props = KaProperties::default();
    let idle = KaInput::default();

    let mut short_platformer = Platformer::default();
    let mut short_state = KaState::default();
    short_state.is_jumping = true;
    short_state.velocity = Vector2 { x: 0, y: 80_000 };
    airborne_tick(&mut short_platformer, &mut short_state, &props, &released_jump(), 100);

    let mut full_platformer = Platformer::default();
    let mut full_state = KaState::default();
    full_state.is_jumping = true;
    full_state.velocity = Vector2 { x: 0, y: 80_000 };
    airborne_tick(&mut full_platformer, &mut full_state, &props, &held_jump(), 100);

    assert!(short_state.velocity.y < full_state.velocity.y);
}
