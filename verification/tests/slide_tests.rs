use platformer_controller::slide::Contact;
use platformer_controller::slide::ContactStatus;
use platformer_controller::slide::MoveResult;
use platformer_controller::slide::SlideResolver;
use platformer_controller::vector2::Vector2;

fn free_move(eff: Vector2, grounded: bool) -> MoveResult {
    MoveResult { effective_translation: eff, grounded, contacts: Vec::new() }
}

#[test]
fn airborne_free_move_resolves_in_one_iteration() {
    let desired = Vector2::new(5_000, -5_000);
    let mut r = SlideResolver::new(desired);
    assert_eq!(r.request(), Some(desired));
    r.step(&free_move(desired, false));
    assert!(r.done);
    assert_eq!(r.iterations, 1);
    assert_eq!(r.remaining, Vector2 { x: 0, y: 0 });
    assert_eq!(r.achieved(), desired);
    assert!(!r.grounded);
    assert_eq!(r.request(), None);
}

#[test]
fn grounded_full_consumption_resolves() {
    let desired = Vector2::new(5_000, 0);
    let mut r = SlideResolver::new(desired);
    r.step(&free_move(desired, true));
    assert!(r.done);
    assert_eq!(r.remaining, Vector2 { x: 0, y: 0 });
    assert_eq!(r.achieved(), desired);
    assert!(r.grounded);
}

#[test]
fn grounded_overtravel_reversal_zeroes_remainder() {
    // the backend carried the actor farther than asked (autostep variance):
    // consuming more than the remainder would reverse travel, so it zeroes
    let mut r = SlideResolver::new(Vector2::new(5_000, 0));
    r.step(&free_move(Vector2::new(8_000, 0), true));
    assert_eq!(r.remaining, Vector2 { x: 0, y: 0 });
    assert!(r.done);
}

#[test]
fn diagonal_into_wall_slides_along_it() {
    // moving down-right into a wall on the right: the wall normal points
    // back along x, and the rejection removes exactly the x component
    let desired = Vector2::new(5_000, -5_000);
    let mut r = SlideResolver::new(desired);
    let blocked = MoveResult {
        effective_translation: Vector2 { x: 0, y: 0 },
        grounded: false,
        contacts: vec![Contact { normal: Vector2 { x: -1_000, y: 0 }, status: ContactStatus::Converged }],
    };
    r.step(&blocked);
    // the remainder has no component along the wall normal left
    assert_eq!(r.remaining, Vector2 { x: 0, y: -5_000 });
    assert_eq!(r.remaining.dot(&Vector2::new(-1_000, 0)), 0);
    // and the rejection did not lengthen it
    let before = desired.norm_sq();
    assert!(r.remaining.norm_sq() <= before);
    assert!(!r.done);
    // the next iteration falls freely along the wall
    r.step(&free_move(Vector2::new(0, -5_000), false));
    assert!(r.done);
    assert_eq!(r.achieved(), Vector2 { x: 0, y: -5_000 });
}

#[test]
fn penetrating_contact_nudges_position_out() {
    let mut r = SlideResolver::new(Vector2::new(0, -4_000));
    let overlapping = MoveResult {
        effective_translation: Vector2 { x: 0, y: 0 },
        grounded: false,
        contacts: vec![Contact { normal: Vector2 { x: 0, y: 1_000 }, status: ContactStatus::Penetrating }],
    };
    r.step(&overlapping);
    // the downward remainder was rejected along the floor normal...
    assert_eq!(r.remaining, Vector2 { x: 0, y: 0 });
    // ...and the position was pushed a hundredth of a unit out of overlap
    assert_eq!(r.moved, Vector2 { x: 0, y: 10 });
    assert!(r.done);
}

#[test]
fn failed_contacts_are_ignored() {
    let desired = Vector2::new(3_000, 0);
    let mut r = SlideResolver::new(desired);
    let noisy = MoveResult {
        effective_translation: Vector2 { x: 0, y: 0 },
        grounded: false,
        contacts: vec![
            Contact { normal: Vector2 { x: -1_000, y: 0 }, status: ContactStatus::Failed },
            Contact { normal: Vector2 { x: -1_000, y: 0 }, status: ContactStatus::OutOfIterations },
        ],
    };
    r.step(&noisy);
    assert_eq!(r.remaining, desired);
    assert_eq!(r.moved, Vector2 { x: 0, y: 0 });
}

#[test]
fn zero_length_contact_normal_is_ignored() {
    let desired = Vector2::new(3_000, 0);
    let mut r = SlideResolver::new(desired);
    let degenerate = MoveResult {
        effective_translation: Vector2 { x: 0, y: 0 },
        grounded: false,
        contacts: vec![Contact { normal: Vector2 { x: 0, y: 0 }, status: ContactStatus::Converged }],
    };
    r.step(&degenerate);
    assert_eq!(r.remaining, desired);
}

#[test]
fn budget_is_exhausted_after_eight_iterations() {
    // a backend that never moves the actor: the loop still terminates,
    // after exactly the fixed iteration budget
    let mut r = SlideResolver::new(Vector2::new(5_000, 0));
    let stuck = free_move(Vector2::new(0, 0), false);
    let mut steps = 0;
    while r.request().is_some() {
        r.step(&stuck);
        steps += 1;
        assert!(steps <= 8);
    }
    assert_eq!(steps, 8);
    assert_eq!(r.iterations, 8);
    assert!(r.done);
    assert_eq!(r.remaining, Vector2 { x: 5_000, y: 0 });
    assert_eq!(r.achieved(), Vector2 { x: 0, y: 0 });
}

#[test]
fn partial_progress_then_early_termination() {
    let mut r = SlideResolver::new(Vector2::new(4_000, 0));
    r.step(&free_move(Vector2::new(1_500, 0), false));
    assert_eq!(r.remaining, Vector2 { x: 2_500, y: 0 });
    assert!(!r.done);
    r.step(&free_move(Vector2::new(2_500, 0), false));
    assert!(r.done);
    assert_eq!(r.iterations, 2);
    assert_eq!(r.achieved(), Vector2 { x: 4_000, y: 0 });
}

#[test]
fn rejections_never_lengthen_the_remainder() {
    // several oblique contacts in one iteration: after each the remainder
    // can only have shrunk
    let desired = Vector2::new(4_000, -3_000);
    let mut r = SlideResolver::new(desired);
    let crowded = MoveResult {
        effective_translation: Vector2 { x: 0, y: 0 },
        grounded: false,
        contacts: vec![
            Contact { normal: Vector2 { x: -707, y: 707 }, status: ContactStatus::Converged },
            Contact { normal: Vector2 { x: 0, y: 1_000 }, status: ContactStatus::Converged },
            Contact { normal: Vector2 { x: -1_000, y: 0 }, status: ContactStatus::Penetrating },
        ],
    };
    r.step(&crowded);
    assert!(r.remaining.norm_sq() <= desired.norm_sq());
}
