use tsunami_run::assets::{Animation, Assets, GameAssets, TextureInfo};
use tsunami_run::character::{Character, State};
use tsunami_run::game::GameState;
use tsunami_run::geometry::{Camera, Vec2, Vec3};
use tsunami_run::render::{
    collect_sprites, compose_frame, depth_sort, emit_sprite, road_strip, DrawCmd, Size, Sprite,
    TextureId,
};

fn tex(w: i64, h: i64) -> TextureInfo {
    TextureInfo { width: w, height: h }
}

fn anim(frames: usize) -> Animation {
    Animation { frames: vec![tex(100, 100); frames] }
}

fn assets() -> GameAssets {
    GameAssets {
        character: Assets { run: anim(4), fall: anim(2), fall_side: anim(3) },
        houses: vec![tex(100, 100); 5],
        beach_houses: vec![tex(100, 100); 2],
        cars: vec![tex(120, 80); 2],
        tsunami: anim(4),
        road: tex(64, 64),
        sand_road: tex(64, 64),
        pierce: tex(64, 64),
    }
}

fn camera() -> Camera {
    Camera { near_distance: 10_000, far_distance: 0, camera_near: 1_000, road_ratio: 500 }
}

fn house_sprite_at(y: i64) -> Sprite {
    Sprite {
        texture: TextureId::House(0),
        tex_info: tex(100, 100),
        position: Vec3 { x: 0, y, z: 0 },
        origin: Vec2 { x: 500, y: 0 },
        size: Size::FixedWidth(1000),
    }
}

#[test]
fn quad_rect_is_exact() {
    let cam = camera();
    let cmd = emit_sprite(&cam, 1000, 1000, &house_sprite_at(5000)).unwrap();
    // scale 1/6 -> 166 milli; a one-unit-wide square texture projects to a
    // square of 0.8 * 166 of the viewport height, centred on the lane.
    match cmd {
        DrawCmd::Quad { texture, x, y, width, height } => {
            assert_eq!(texture, TextureId::House(0));
            assert_eq!(width, 132_800);
            assert_eq!(height, 132_800);
            assert_eq!(x, 500_000 - 66_400);
            assert_eq!(y, 800_000 * (1000 - 166) / 1000);
        },
        other => panic!("expected a quad, got {:?}", other),
    }
}

#[test]
fn sprites_behind_the_camera_emit_nothing() {
    let cam = camera();
    assert!(emit_sprite(&cam, 1000, 1000, &house_sprite_at(11_000)).is_none());
    assert!(emit_sprite(&cam, 1000, 1000, &house_sprite_at(11_500)).is_none());
}

#[test]
fn depth_sort_orders_by_distance_and_keeps_everything() {
    let mut v = vec![
        house_sprite_at(9_000),
        house_sprite_at(2_000),
        house_sprite_at(7_000),
        house_sprite_at(2_000),
        house_sprite_at(4_000),
    ];
    depth_sort(&mut v);
    assert_eq!(v.len(), 5);
    let ys: Vec<i64> = v.iter().map(|s| s.position.y).collect();
    assert_eq!(ys, vec![2_000, 2_000, 4_000, 7_000, 9_000]);
}

#[test]
fn depth_sort_keeps_first_come_order_on_ties() {
    let mut tied_a = house_sprite_at(2_000);
    tied_a.texture = TextureId::House(3);
    let mut tied_b = house_sprite_at(2_000);
    tied_b.texture = TextureId::House(4);
    let mut v = vec![tied_a, house_sprite_at(5_000), tied_b, house_sprite_at(1_000)];
    depth_sort(&mut v);
    assert_eq!(v[0].position.y, 1_000);
    // the two sprites at equal distance keep their insertion order
    assert_eq!(v[1].texture, TextureId::House(3));
    assert_eq!(v[2].texture, TextureId::House(4));
    assert_eq!(v[3].position.y, 5_000);
}

#[test]
fn gameplay_sprites_vanish_once_the_wave_wins() {
    let mut gs = GameState::new(assets(), 2, true);
    gs.player.position.y = 20_000;
    gs.camera.near_distance = 22_000;
    gs.camera.far_distance = 10_000;
    gs.update(0, &tsunami_run::game::Input {
        left: false,
        right: false,
        window_width: 800,
        window_height: 600,
    });
    let alive = collect_sprites(&gs);
    assert_eq!(
        alive.len(),
        gs.houses.len() + gs.obstacles.len() + 1 + gs.characters.len() + 1
    );
    // the wave sprite rides at the hazard's distance, as a band
    let wave = alive.last().unwrap();
    assert_eq!(wave.position.y, gs.tsunami_position);
    assert!(matches!(wave.size, Size::Fixed(_, 2_000)));
    gs.tsunami_position = gs.camera.near_distance + gs.camera.camera_near + 1;
    let after = collect_sprites(&gs);
    assert_eq!(after.len(), gs.houses.len());
}

#[test]
fn visible_wave_emits_one_band() {
    let mut gs = GameState::new(assets(), 2, true);
    gs.tsunami_position = 5_000;
    let cmds = compose_frame(&gs, 1_000, 1_000);
    let bands: Vec<&DrawCmd> =
        cmds.iter().filter(|c| matches!(c, DrawCmd::Band { .. })).collect();
    assert_eq!(bands.len(), 1);
    match bands[0] {
        DrawCmd::Band { texture, y1, y2, u1, u2 } => {
            assert!(matches!(texture, TextureId::Wave { .. }));
            assert!(y2 > y1);
            assert!(u2 > u1);
        },
        _ => unreachable!(),
    }
}

#[test]
fn composed_frame_is_depth_ordered() {
    let mut gs = GameState::new(assets(), 31, true);
    for _ in 0..30 {
        gs.update(100, &tsunami_run::game::Input {
            left: false,
            right: false,
            window_width: 800,
            window_height: 600,
        });
    }
    let mut sprites = collect_sprites(&gs);
    depth_sort(&mut sprites);
    for pair in sprites.windows(2) {
        assert!(pair[0].position.y <= pair[1].position.y);
    }
}

#[test]
fn road_strip_tessellates_the_clamped_band() {
    let cam = camera();
    let strip = road_strip(&cam, 1_000, 1_000, 0, 20_000);
    // a thousand segments, two triangles each
    assert_eq!(strip.len(), 6_000);
    // the band is clamped to the window 0..10; v advances a tile per ten units
    assert_eq!(strip[0].u, 0);
    assert_eq!(strip[1].u, 1000);
    let last = strip[strip.len() - 1];
    assert_eq!(last.u, 0);
    assert_eq!(last.v, 999);
    // an empty band tessellates to nothing
    let empty = road_strip(&cam, 1_000, 1_000, 12_000, 20_000);
    assert_eq!(empty.len(), 0);
}

#[test]
fn draw_texture_matches_the_standalone_projection() {
    let mut gs = GameState::new(assets(), 2, true);
    // put the fresh state's camera where the standalone camera sits
    gs.player.position.y = 8_000;
    gs.camera.near_distance = 10_000;
    gs.camera.far_distance = 0;
    let sprite = house_sprite_at(5_000);
    let through_state = gs.draw_texture(
        1000,
        1000,
        sprite.texture,
        sprite.tex_info,
        sprite.position,
        sprite.origin,
        sprite.size,
    );
    let standalone = emit_sprite(&camera(), 1000, 1000, &sprite);
    assert_eq!(through_state, standalone);
    assert!(through_state.is_some());
    assert!(gs
        .draw_texture(
            1000,
            1000,
            sprite.texture,
            sprite.tex_info,
            Vec3 { x: 0, y: 11_000, z: 0 },
            sprite.origin,
            sprite.size,
        )
        .is_none());
}

#[test]
fn frame_counts_pick_the_phase_frame() {
    assert_eq!(assets().character.run.frame_count(), 4);
    let mut c = Character::new(Vec2 { x: 0, y: 0 });
    c.animation_position = 500;
    let s = c.draw(&assets().character);
    assert_eq!(
        s.texture,
        TextureId::CharacterFrame { state: State::Run, frame: 2 }
    );
    assert_eq!(s.size, Size::FixedWidth(200));
    assert_eq!(s.origin, Vec2 { x: 500, y: 0 });
    c.fall();
    c.animation_position = 999;
    let s2 = c.draw(&assets().character);
    assert_eq!(
        s2.texture,
        TextureId::CharacterFrame { state: State::Fall, frame: 1 }
    );
    assert_eq!(s2.origin, Vec2 { x: 500, y: 500 });
    assert_eq!(s2.size, Size::FixedWidth(140));
}

#[test]
fn fallen_poses_draw_smaller_than_the_running_one() {
    let mut c = Character::new(Vec2 { x: 0, y: 0 });
    let run = c.draw(&assets().character);
    assert_eq!(run.size, Size::FixedWidth(200));
    c.fall_side();
    let sideways = c.draw(&assets().character);
    assert_eq!(
        sideways.texture,
        TextureId::CharacterFrame { state: State::FallSide, frame: 0 }
    );
    assert_eq!(sideways.origin, Vec2 { x: 500, y: 0 });
    assert_eq!(sideways.size, Size::FixedWidth(140));
}
