use tsunami_run::assets::{Animation, Assets, GameAssets, TextureInfo};
use tsunami_run::character::{Character, State};
use tsunami_run::game::{Decor, Event, GameState, Input};
use tsunami_run::geometry::Vec2;
use tsunami_run::render::TextureId;

fn tex(w: i64, h: i64) -> TextureInfo {
    TextureInfo { width: w, height: h }
}

fn anim(frames: usize) -> Animation {
    Animation { frames: vec![tex(100, 100); frames] }
}

fn assets() -> GameAssets {
    GameAssets {
        character: Assets { run: anim(4), fall: anim(2), fall_side: anim(3) },
        houses: vec![tex(100, 100); 5],
        beach_houses: vec![tex(100, 100); 2],
        cars: vec![tex(120, 80); 2],
        tsunami: anim(4),
        road: tex(64, 64),
        sand_road: tex(64, 64),
        pierce: tex(64, 64),
    }
}

fn idle() -> Input {
    Input { left: false, right: false, window_width: 800, window_height: 600 }
}

#[test]
fn fresh_state_matches_the_start_of_a_run() {
    let gs = GameState::new(assets(), 1, false);
    assert_eq!(gs.camera.near_distance, 10_000);
    assert_eq!(gs.camera.far_distance, 0);
    assert_eq!(gs.camera.camera_near, 1_000);
    assert_eq!(gs.camera.road_ratio, 500);
    assert_eq!(gs.player.position.x, 0);
    assert_eq!(gs.player.position.y, 1_000);
    assert_eq!(gs.tsunami_position, -500_000);
    assert_eq!(gs.next_house, 3_000);
    assert_eq!(gs.next_obstacle, 10_000);
    assert_eq!(gs.game_speed, 1_000);
    assert!(gs.time.is_none());
    assert!(!gs.game_finished());
}

#[test]
fn spawn_cursor_catches_up_to_the_horizon() {
    let mut gs = GameState::new(assets(), 11, true);
    // window edge at 23.0: batches fire at 10, 12, ..., 22 — seven of them —
    // and the cursor comes to rest on 24, the first unreached value.
    gs.player.position.y = 20_000;
    gs.camera.near_distance = 22_000;
    gs.camera.far_distance = 10_000;
    gs.update(0, &idle());
    assert_eq!(gs.next_obstacle, 24_000);
    assert_eq!(gs.obstacles.len() + gs.characters.len(), 7);
    // the scenery cursor rests exactly on the edge it reached
    assert_eq!(gs.next_house, 23_000);
    for c in &gs.characters {
        assert!(c.velocity.y >= 300 && c.velocity.y < 700);
        assert_eq!(c.velocity.x, 0);
        assert!(c.position.x >= -400 && c.position.x <= 400);
    }
    for d in &gs.obstacles {
        assert!(d.position.x == 250 || d.position.x == -250);
        match d.texture {
            TextureId::Car(i) => assert!(i < 2),
            ref other => panic!("a car wore {:?}", other),
        }
    }
}

#[test]
fn house_bands_pick_their_own_texture_pools() {
    let mut gs = GameState::new(assets(), 5, true);
    gs.player.position.y = 20_000;
    gs.camera.near_distance = 22_000;
    gs.camera.far_distance = 10_000;
    gs.update(0, &idle());
    assert!(!gs.houses.is_empty());
    for h in &gs.houses {
        assert!(h.position.x == 1_300 || h.position.x == -1_300);
        match h.texture {
            // houses spawned up to the beach's end wear beach textures
            TextureId::BeachHouse(i) => {
                assert!(i < 2);
                assert!(h.position.y <= 20_000);
            },
            TextureId::House(i) => {
                assert!(i < 5);
                assert!(h.position.y > 20_000);
            },
            ref other => panic!("a house wore {:?}", other),
        }
    }
}

#[test]
fn every_surviving_entity_sits_in_the_window() {
    let mut gs = GameState::new(assets(), 23, true);
    for _ in 0..200 {
        gs.update(100, &idle());
        let far = gs.camera.far_distance;
        let plane = gs.camera.near_distance + gs.camera.camera_near;
        for h in &gs.houses {
            assert!(far <= h.position.y && h.position.y <= plane);
        }
        for d in &gs.obstacles {
            assert!(far <= d.position.y && d.position.y <= plane);
        }
        for c in &gs.characters {
            assert!(far <= c.position.y && c.position.y <= plane + 1_000_000);
        }
    }
}

#[test]
fn overtaken_window_ends_the_run_for_good() {
    let mut gs = GameState::new(assets(), 7, true);
    gs.player.position.y = 0;
    gs.player.fall();
    let mut frames = 0;
    while !gs.game_finished() {
        gs.update(1_000, &idle());
        frames += 1;
        assert!(frames < 1_000, "the wave never caught a fallen player");
    }
    assert!(gs.tsunami_position > gs.camera.near_distance + gs.camera.camera_near);
    let player_at_end = gs.player;
    let time_at_end = gs.time;
    for _ in 0..10 {
        gs.update(1_000, &idle());
        assert!(gs.game_finished(), "the game-over flag flickered off");
        assert_eq!(gs.player, player_at_end);
        assert_eq!(gs.time, time_at_end);
    }
}

#[test]
fn difficulty_ramps_while_running_and_pins_when_down() {
    let mut gs = GameState::new(assets(), 3, true);
    gs.tsunami_position = 0;
    gs.update(1_000, &idle());
    // 0.05 per second of ramp: one second adds 50 milli
    assert_eq!(gs.game_speed, 1_050);
    gs.player.fall();
    gs.update(1_000, &idle());
    assert_eq!(gs.game_speed, 2_000);
}

#[test]
fn run_clock_starts_on_first_input_only() {
    let mut gs = GameState::new(assets(), 9, false);
    gs.update(1_000, &idle());
    assert!(gs.time.is_none());
    assert_eq!(gs.tsunami_position, -500_000);
    gs.handle_event(Event::KeyDown { restart_key: false });
    assert_eq!(gs.time, Some(0));
    gs.update(1_000, &idle());
    assert_eq!(gs.time, Some(1_000));
    assert!(gs.tsunami_position > -500_000);
}

#[test]
fn pointer_press_is_tracked_through_its_life() {
    let mut gs = GameState::new(assets(), 9, true);
    gs.handle_event(Event::MouseMove { x: 300 });
    assert!(gs.pressed_location.is_none());
    gs.handle_event(Event::MouseDown { x: 280 });
    assert_eq!(gs.pressed_location, Some(280));
    gs.handle_event(Event::MouseMove { x: 320 });
    assert_eq!(gs.pressed_location, Some(320));
    gs.handle_event(Event::MouseUp);
    assert!(gs.pressed_location.is_none());
    gs.handle_event(Event::TouchStart { x: 120 });
    assert_eq!(gs.pressed_location, Some(120));
    gs.handle_event(Event::TouchEnd);
    assert!(gs.pressed_location.is_none());
}

#[test]
fn restart_key_requests_a_full_restart() {
    let mut gs = GameState::new(assets(), 9, true);
    assert_eq!(gs.transition(), None);
    gs.handle_event(Event::KeyDown { restart_key: true });
    assert_eq!(gs.transition(), Some(false));
    assert_eq!(gs.transition(), None);
}

#[test]
fn any_press_after_the_end_requests_a_quick_restart() {
    let mut gs = GameState::new(assets(), 7, true);
    gs.player.fall();
    let mut frames = 0;
    while !gs.game_finished() {
        gs.update(1_000, &idle());
        frames += 1;
        assert!(frames < 1_000);
    }
    gs.handle_event(Event::MouseDown { x: 10 });
    assert_eq!(gs.transition(), Some(true));
}

#[test]
fn same_seed_same_world() {
    let mut a = GameState::new(assets(), 77, true);
    let mut b = GameState::new(assets(), 77, true);
    for _ in 0..50 {
        a.update(100, &idle());
        b.update(100, &idle());
    }
    assert_eq!(a.obstacles, b.obstacles);
    assert_eq!(a.characters.len(), b.characters.len());
    for (x, y) in a.characters.iter().zip(b.characters.iter()) {
        assert_eq!(x, y);
    }
}

#[test]
fn a_clear_road_integrates_the_player_exactly() {
    let mut gs = GameState::new(assets(), 6, true);
    gs.tsunami_position = 0;
    assert!(gs.obstacles.is_empty() && gs.characters.is_empty());
    gs.update(100, &idle());
    // ramp: 1000 + 100/20; effective step: 100 * 1.005 truncated to 100;
    // forward speed approaches 1.0 by at most 5.0 * 0.1; then the position
    // integrates the new velocity over the effective step.
    assert_eq!(gs.game_speed, 1_005);
    assert_eq!(gs.player.velocity.y, 500);
    assert_eq!(gs.player.velocity.x, 0);
    assert_eq!(gs.player.position.y, 1_050);
    assert_eq!(gs.player.position.x, 0);
    assert_eq!(gs.camera.near_distance, 3_050);
    assert_eq!(gs.camera.far_distance, 1_050 - 10_000);
}

#[test]
fn a_clear_lane_integrates_the_player_exactly_amid_traffic() {
    let mut gs = GameState::new(assets(), 6, true);
    gs.tsunami_position = 0;
    // a car and a runner stand well ahead of the player's integrated
    // distance: no collision response can reach it, so the pipeline is the
    // bare steering, integration and road clamp
    gs.obstacles.push(Decor {
        position: Vec2 { x: 250, y: 5_000 },
        texture: TextureId::Car(0),
    });
    let mut bystander = Character::new(Vec2 { x: 400, y: 3_800 });
    bystander.velocity = Vec2 { x: 0, y: 300 };
    gs.characters.push(bystander);
    gs.update(100, &idle());
    assert_eq!(gs.player.state, State::Run);
    assert_eq!(gs.player.velocity.y, 500);
    assert_eq!(gs.player.velocity.x, 0);
    assert_eq!(gs.player.position.y, 1_050);
    assert_eq!(gs.player.position.x, 0);
}

#[test]
fn runners_behind_the_wave_are_swept_down() {
    let mut gs = GameState::new(assets(), 13, true);
    gs.tsunami_position = 1_000;
    let straggler = Character::new(Vec2 { x: 400, y: 1_500 });
    gs.characters.push(straggler);
    gs.update(0, &idle());
    let swept: Vec<&Character> =
        gs.characters.iter().filter(|c| c.position.y == 1_500).collect();
    assert_eq!(swept.len(), 1);
    assert!(swept[0].state != State::Run, "a runner behind the wave kept running");
    assert_eq!(swept[0].velocity, Vec2 { x: 0, y: 0 });
}

#[test]
fn touching_a_runner_fells_both_asymmetrically() {
    let mut gs = GameState::new(assets(), 17, true);
    let runner = Character::new(Vec2 { x: 0, y: 1_150 });
    gs.characters.push(runner);
    gs.update(0, &idle());
    // front hit: the player is pushed behind the runner and falls forward,
    // the runner collapses sideways
    assert_eq!(gs.player.state, State::Fall);
    assert_eq!(gs.player.position.y, 950);
    assert_eq!(gs.player.velocity, Vec2 { x: 0, y: 0 });
    assert_eq!(gs.player.animation_position, 0);
    let hit: Vec<&Character> =
        gs.characters.iter().filter(|c| c.position.y == 1_150).collect();
    assert_eq!(hit.len(), 1);
    assert_eq!(hit[0].state, State::FallSide);
}

#[test]
fn hitting_a_car_head_on_fells_the_player_sideways() {
    let mut gs = GameState::new(assets(), 19, true);
    gs.obstacles.push(Decor {
        position: Vec2 { x: 0, y: 1_150 },
        texture: TextureId::Car(0),
    });
    gs.update(0, &idle());
    assert_eq!(gs.player.state, State::FallSide);
    assert_eq!(gs.player.position.y, 1_150 - 330);
    assert!(gs.obstacles.iter().any(|d| d.position.y == 1_150));
}

#[test]
fn a_runner_hit_by_a_car_front_collapses_sideways() {
    let mut gs = GameState::new(assets(), 23, true);
    let runner = Character::new(Vec2 { x: 0, y: 1_870 });
    gs.characters.push(runner);
    gs.obstacles.push(Decor {
        position: Vec2 { x: 0, y: 2_000 },
        texture: TextureId::Car(0),
    });
    gs.update(0, &idle());
    // the runner is pushed back onto the car's front boundary and falls
    // sideways; the player, standing clear, is untouched
    let hit: Vec<&Character> =
        gs.characters.iter().filter(|c| c.position.y == 2_000 - 330).collect();
    assert_eq!(hit.len(), 1);
    assert_eq!(hit[0].state, State::FallSide);
    assert_eq!(hit[0].velocity, Vec2 { x: 0, y: 0 });
    assert_eq!(hit[0].animation_position, 0);
    assert_eq!(gs.player.state, State::Run);
    assert_eq!(gs.player.position, Vec2 { x: 0, y: 1_000 });
}

#[test]
fn nothing_moves_before_the_first_input() {
    let mut gs = GameState::new(assets(), 29, false);
    for _ in 0..5 {
        gs.update(1_000, &idle());
        assert_eq!(gs.player.position, Vec2 { x: 0, y: 1_000 });
        assert_eq!(gs.player.velocity, Vec2 { x: 0, y: 0 });
        assert_eq!(gs.tsunami_position, -500_000);
        assert_eq!(gs.game_speed, 1_000);
        assert_eq!(gs.tsunami_animation, 0);
        assert!(gs.time.is_none());
    }
}

#[test]
fn lateral_input_steers_and_stays_on_the_road() {
    let mut gs = GameState::new(assets(), 4, true);
    gs.tsunami_position = 0;
    let left = Input { left: true, right: false, window_width: 800, window_height: 600 };
    for _ in 0..100 {
        gs.update(100, &idle());
        gs.update(100, &left);
        assert!(gs.player.position.x >= -1_000 && gs.player.position.x <= 1_000);
    }
}
