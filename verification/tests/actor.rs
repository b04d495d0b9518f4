use tsunami_run::character::{Character, State};
use tsunami_run::geometry::Vec2;

fn runner_at(x: i64, y: i64) -> Character {
    Character::new(Vec2 { x, y })
}

#[test]
fn phase_accumulates_and_wraps() {
    let mut c = runner_at(0, 0);
    c.velocity = Vec2 { x: 0, y: 1000 };
    // gait rate 3 cycles per unit of speed: 3.0 * 0.5 s * 1.0 = 1.5 cycles
    c.update(500);
    assert_eq!(c.animation_position, 500);
    assert_eq!(c.position, Vec2 { x: 0, y: 500 });
    assert_eq!(c.state, State::Run);
}

#[test]
fn phase_stays_in_cycle_over_many_steps() {
    let mut c = runner_at(0, 0);
    c.velocity = Vec2 { x: 600, y: 800 };
    for _ in 0..50 {
        c.update(137);
        assert!(c.animation_position >= 0 && c.animation_position < 1000);
    }
}

#[test]
fn fallen_runner_does_not_move() {
    let mut c = runner_at(100, 2000);
    c.velocity = Vec2 { x: 500, y: 500 };
    c.fall();
    assert_eq!(c.velocity, Vec2 { x: 0, y: 0 });
    assert_eq!(c.animation_position, 0);
    // fall animation advances at 2 cycles per second: 0.6 s -> 0.2 cycles
    c.update(600);
    assert_eq!(c.position, Vec2 { x: 100, y: 2000 });
    assert_eq!(c.animation_position, 200);
}

#[test]
fn fall_is_guarded_and_idempotent() {
    let mut once = runner_at(0, 0);
    once.velocity = Vec2 { x: 300, y: 400 };
    once.fall();
    let mut twice = runner_at(0, 0);
    twice.velocity = Vec2 { x: 300, y: 400 };
    twice.fall();
    twice.fall();
    assert_eq!(once, twice);
    // a sideways knockdown after a forward one changes nothing
    let snapshot = once;
    once.fall_side();
    assert_eq!(once, snapshot);
    assert_eq!(once.state, State::Fall);
}

#[test]
fn fall_side_is_guarded_and_idempotent() {
    let mut c = runner_at(0, 0);
    c.fall_side();
    assert_eq!(c.state, State::FallSide);
    let snapshot = c;
    c.fall_side();
    assert_eq!(c, snapshot);
    c.fall();
    assert_eq!(c, snapshot);
}

#[test]
fn front_hit_resolves_backward_and_reports() {
    // combined size 0.33; dy = -0.2 is the shallower axis, resolved to
    // obstacle.y - size = 4.87, which is behind the obstacle: a front hit.
    let mut c = runner_at(0, 5000);
    let hit = c.check_hit(Vec2 { x: 0, y: 5200 }, 230);
    assert!(hit);
    assert_eq!(c.position, Vec2 { x: 0, y: 4870 });
    // the caller answers a front hit with a sideways knockdown
    c.fall_side();
    assert_eq!(c.state, State::FallSide);
    assert_eq!(c.velocity, Vec2 { x: 0, y: 0 });
}

#[test]
fn lateral_resolution_is_a_near_miss() {
    let mut c = runner_at(300, 5000);
    let hit = c.check_hit(Vec2 { x: 0, y: 5000 }, 230);
    assert!(!hit);
    assert_eq!(c.position, Vec2 { x: 330, y: 5000 });
    assert_eq!(c.state, State::Run);
}

#[test]
fn resolution_never_leaves_penetration() {
    let cases = [
        (0i64, 5000i64, 0i64, 5200i64),
        (300, 5000, 0, 5000),
        (-100, 980, 0, 1000),
        (50, 1020, 0, 1000),
        (0, 1000, 0, 1000),
    ];
    for (cx, cy, ox, oy) in cases {
        let mut c = runner_at(cx, cy);
        let obstacle = Vec2 { x: ox, y: oy };
        c.check_hit(obstacle, 230);
        let dx = (c.position.x - obstacle.x).abs();
        let dy = (c.position.y - obstacle.y).abs();
        assert!(dx.max(dy) >= 330, "still overlapping from ({cx},{cy})");
    }
}

#[test]
fn no_touch_without_overlap() {
    let mut c = runner_at(0, 5000);
    let hit = c.check_hit(Vec2 { x: 0, y: 5400 }, 230);
    assert!(!hit);
    assert_eq!(c.position, Vec2 { x: 0, y: 5000 });
}

#[test]
fn contact_at_exactly_the_combined_size_is_no_overlap() {
    // overlap needs strict inequality on both axes
    let mut c = runner_at(0, 5330);
    let hit = c.check_hit(Vec2 { x: 0, y: 5000 }, 230);
    assert!(!hit);
    assert_eq!(c.position, Vec2 { x: 0, y: 5330 });
    let mut side = runner_at(330, 5000);
    assert!(!side.check_hit(Vec2 { x: 0, y: 5000 }, 230));
    assert_eq!(side.position, Vec2 { x: 330, y: 5000 });
}

#[test]
fn fallen_runner_is_immune_to_hits() {
    let mut c = runner_at(0, 5000);
    c.fall();
    let hit = c.check_hit(Vec2 { x: 0, y: 5100 }, 230);
    assert!(!hit);
    assert_eq!(c.position, Vec2 { x: 0, y: 5000 });
}
