//! Render compositor: collects one sprite per visible entity, depth-sorts
//! them by world distance (painter's algorithm), and turns each into a draw
//! command with a computed pixel rect — or, for the wave, a screen-spanning
//! band with tiled texture coordinates. The commands reference textures by
//! pool index only; turning an index into a real texture is the renderer's
//! business, not the simulation's.

use vstd::prelude::*;
use vstd::arithmetic::div_mod::{
    lemma_div_basics, lemma_div_is_ordered, lemma_div_is_ordered_by_denominator,
    lemma_div_multiples_vanish, lemma_div_pos_is_pos,
};
use crate::assets::{GameAssets, TextureInfo};
use crate::character::{Character, State};
use crate::fixed::{
    lemma_milli_mul_bound, lemma_milli_mul_nonneg, lemma_product_cap, mag, milli_mul,
    milli_product, mul_div, quot_toward_zero,
};
use crate::game::{Decor, GameState};
use crate::geometry::{Camera, DIST_CAP, Vec2, Vec3};
use vstd::multiset::Multiset;

verus! {

/// A handle into the asset pools.
#[derive(Clone, Copy, PartialEq, Eq, Structural, Debug)]
pub enum TextureId {
    House(usize),
    BeachHouse(usize),
    Car(usize),
    CharacterFrame { state: State, frame: usize },
    Wave { frame: usize },
    Road,
    SandRoad,
    Pierce,
}

/// How a sprite's screen rect is sized.
#[derive(Clone, Copy, PartialEq, Eq, Structural, Debug)]
pub enum Size {
    /// Absolute width and height in world units; drawn as a screen-spanning
    /// band with tiled texture coordinates.
    Fixed(i64, i64),
    /// Width in world units; height follows the texture's aspect ratio.
    FixedWidth(i64),
    /// Height in world units.
    FixedHeight(i64),
}

/// One visible entity, ready for projection.
#[derive(Clone, Copy, PartialEq, Eq, Structural, Debug)]
pub struct Sprite {
    pub texture: TextureId,
    pub tex_info: TextureInfo,
    pub position: Vec3,
    /// Pivot of the rect within the sprite, in milli-fractions of its size.
    pub origin: Vec2,
    pub size: Size,
}

/// One emitted draw primitive, in milli-pixels.
#[derive(Clone, Copy, PartialEq, Eq, Structural, Debug)]
pub enum DrawCmd {
    /// A textured quad: `(x, y)` is the lower-left corner of the rect.
    Quad { texture: TextureId, x: i64, y: i64, width: i64, height: i64 },
    /// A horizontal band across the whole viewport between heights `y1` and
    /// `y2`, with horizontally tiled texture coordinates `u1..u2` (milli).
    Band { texture: TextureId, y1: i64, y2: i64, u1: i64, u2: i64 },
}

/// One vertex of the tessellated road strip, in milli-pixels with milli
/// texture coordinates.
#[derive(Clone, Copy, PartialEq, Eq, Structural, Debug)]
pub struct RoadVertex {
    pub x: i64,
    pub y: i64,
    pub u: i64,
    pub v: i64,
}

/// Bounds under which a sprite can be projected without overflow. Every
/// sprite the compositor collects satisfies them.
pub open spec fn sprite_in_range(s: Sprite) -> bool {
    &&& mag(s.position.x as int) <= 10_000
    &&& mag(s.position.y as int) <= DIST_CAP
    &&& s.position.z == 0
    &&& 0 <= s.origin.x <= 1000
    &&& 0 <= s.origin.y <= 1000
    &&& s.tex_info.wf()
    &&& match s.size {
        Size::FixedWidth(w) => 0 <= w <= 10_000,
        Size::FixedHeight(h) => 0 <= h <= 10_000,
        Size::Fixed(w, h) => 0 <= h <= 10_000,
    }
}

/// The sprite's height in world units: given directly, or derived from its
/// width through the texture's pixel aspect ratio.
pub open spec fn height_world(s: Sprite) -> int {
    match s.size {
        Size::FixedWidth(w) => quot_toward_zero(w * s.tex_info.height, s.tex_info.width as int),
        Size::FixedHeight(h) => h as int,
        Size::Fixed(w, h) => h as int,
    }
}

/// The quad a sprite projects to: its pixel height is the world height times
/// the perspective scale times the road's share of the viewport, its width
/// follows the texture aspect, and the pivot shifts the rect. A sprite at or
/// past the camera plane has no finite projection and is skipped.
pub open spec fn quad_cmd(cam: Camera, fb_w: int, fb_h: int, s: Sprite) -> Option<DrawCmd> {
    if s.position.y >= cam.plane() {
        None
    } else {
        let scale = cam.scale_at(s.position.y as int);
        let px = cam.pixel_x_at(fb_w, fb_h, s.position.x as int, s.position.y as int);
        let py = cam.pixel_y_at(fb_w, fb_h, s.position.y as int, 0);
        let size_y = milli_mul(fb_h * 800, milli_mul(height_world(s), scale));
        let size_x = quot_toward_zero(size_y * s.tex_info.width, s.tex_info.height as int);
        Some(
            DrawCmd::Quad {
                texture: s.texture,
                x: (px - milli_mul(size_x, s.origin.x as int)) as i64,
                y: (py - milli_mul(size_y, s.origin.y as int)) as i64,
                width: size_x as i64,
                height: size_y as i64,
            },
        )
    }
}

/// The screen-spanning band a fixed-size sprite (the wave) projects to: the
/// vertical slab at its projected height, with texture coordinates spread so
/// the texture tiles across the viewport at its natural aspect. A band of
/// zero projected height, or one at or past the camera plane, is skipped.
pub open spec fn band_cmd(cam: Camera, fb_w: int, fb_h: int, s: Sprite) -> Option<DrawCmd> {
    if s.position.y >= cam.plane() {
        None
    } else {
        let scale = cam.scale_at(s.position.y as int);
        let py = cam.pixel_y_at(fb_w, fb_h, s.position.y as int, 0);
        let size_px = milli_mul(fb_h * 800, milli_mul(height_world(s), scale));
        if size_px <= 0 {
            None
        } else {
            let y1 = py - milli_mul(size_px, s.origin.y as int);
            let tw = (fb_w * s.tex_info.height * 1_000_000) / (size_px * s.tex_info.width);
            Some(
                DrawCmd::Band {
                    texture: s.texture,
                    y1: y1 as i64,
                    y2: (y1 + size_px) as i64,
                    u1: (500 - tw / 2) as i64,
                    u2: (500 + tw / 2) as i64,
                },
            )
        }
    }
}

/// The draw command a sprite produces, if any.
pub open spec fn sprite_cmd(cam: Camera, fb_w: int, fb_h: int, s: Sprite) -> Option<DrawCmd> {
    match s.size {
        Size::Fixed(w, h) => band_cmd(cam, fb_w, fb_h, s),
        _ => quad_cmd(cam, fb_w, fb_h, s),
    }
}

/// The commands of a sprite list, in order, skipping sprites that project to
/// nothing.
pub open spec fn emit_all(cam: Camera, fb_w: int, fb_h: int, sprites: Seq<Sprite>) -> Seq<DrawCmd>
    decreases sprites.len(),
{
    if sprites.len() == 0 {
        Seq::empty()
    } else {
        let rest = emit_all(cam, fb_w, fb_h, sprites.drop_last());
        match sprite_cmd(cam, fb_w, fb_h, sprites.last()) {
            Some(c) => rest.push(c),
            None => rest,
        }
    }
}

/// Shared arithmetic bounds for one sprite's projection.
proof fn lemma_sprite_sizes(cam: Camera, fb_w: int, fb_h: int, s: Sprite)
    requires
        cam.wf(),
        cam.camera_near <= 1_000,
        1 <= fb_w <= 100_000,
        1 <= fb_h <= 100_000,
        sprite_in_range(s),
        s.position.y < cam.plane(),
    ensures
        0 <= height_world(s) <= 1_000_000,
        0 <= cam.scale_at(s.position.y as int) <= 1_000_000,
        0 <= milli_mul(height_world(s), cam.scale_at(s.position.y as int)) <= 1_000_000_000,
        0 <= milli_mul(
            fb_h * 800,
            milli_mul(height_world(s), cam.scale_at(s.position.y as int)),
        ) <= 80_000_000_000_000,
{
    let tex = s.tex_info;
    match s.size {
        Size::FixedWidth(w) => {
            assert(w * tex.height <= 1_000_000 * tex.width) by (nonlinear_arith)
                requires
                    0 <= w <= 10_000,
                    tex.height <= 100 * tex.width,
                    0 <= tex.width;
            assert(0 <= w * tex.height) by (nonlinear_arith)
                requires
                    0 <= w,
                    0 <= tex.height;
            lemma_div_pos_is_pos(w * tex.height, tex.width as int);
            lemma_div_is_ordered(w * tex.height, 1_000_000 * tex.width, tex.width as int);
            lemma_div_multiples_vanish(1_000_000, tex.width as int);
            assert(1_000_000 * tex.width == tex.width * 1_000_000) by (nonlinear_arith);
        },
        _ => {},
    }
    let denom = cam.scale_denom(s.position.y as int);
    lemma_div_pos_is_pos(cam.camera_near * 1000, denom);
    lemma_div_is_ordered_by_denominator(cam.camera_near * 1000, 1, denom);
    lemma_div_basics(cam.camera_near * 1000);
    let scale = cam.scale_at(s.position.y as int);
    lemma_milli_mul_nonneg(height_world(s), scale);
    lemma_milli_mul_bound(height_world(s), scale, 1_000_000, 1_000_000);
    let inner = milli_mul(height_world(s), scale);
    lemma_milli_mul_nonneg(fb_h * 800, inner);
    lemma_milli_mul_bound(fb_h * 800, inner, 80_000_000, 1_000_000_000);
}

/// The width a projected rect gets from its height and the texture aspect is
/// at most a hundredfold the height.
proof fn lemma_aspect_width(size_y: int, tex: TextureInfo)
    requires
        0 <= size_y,
        tex.wf(),
    ensures
        0 <= quot_toward_zero(size_y * tex.width, tex.height as int) <= 100 * size_y,
{
    assert(0 <= size_y * tex.width) by (nonlinear_arith)
        requires
            0 <= size_y,
            0 <= tex.width;
    assert(size_y * tex.width <= (100 * size_y) * tex.height) by (nonlinear_arith)
        requires
            0 <= size_y,
            tex.width <= 100 * tex.height,
            0 <= tex.height;
    lemma_div_pos_is_pos(size_y * tex.width, tex.height as int);
    lemma_div_is_ordered(size_y * tex.width, (100 * size_y) * tex.height, tex.height as int);
    lemma_div_multiples_vanish(100 * size_y, tex.height as int);
    assert((100 * size_y) * tex.height == tex.height * (100 * size_y)) by (nonlinear_arith);
}

/// Project one sprite into a draw command; `None` when nothing would show.
pub fn emit_sprite(cam: &Camera, fb_w: i64, fb_h: i64, s: &Sprite) -> (r: Option<DrawCmd>)
    requires
        cam.wf(),
        cam.camera_near <= 1_000,
        1 <= fb_w <= 100_000,
        1 <= fb_h <= 100_000,
        sprite_in_range(*s),
    ensures
        r == sprite_cmd(*cam, fb_w as int, fb_h as int, *s),
{
    let plane: i64 = cam.near_distance + cam.camera_near;
    if s.position.y >= plane {
        return None;
    }
    proof {
        lemma_sprite_sizes(*cam, fb_w as int, fb_h as int, *s);
    }
    let (pos, scale): (Vec2, i64) = match cam.to_screen(fb_w, fb_h, s.position) {
        Some(v) => v,
        None => {
            return None;
        },
    };
    let hw: i64 = match s.size {
        Size::FixedWidth(w) => {
            proof {
                lemma_product_cap(w as int, s.tex_info.height as int, 10_000, 100_000);
            }
            mul_div(w, s.tex_info.height, s.tex_info.width)
        },
        Size::FixedHeight(h) => h,
        Size::Fixed(_, h) => h,
    };
    proof {
        lemma_product_cap(hw as int, scale as int, 1_000_000, 1_000_000);
        lemma_product_cap(fb_h * 800, milli_mul(hw as int, scale as int), 80_000_000,
            1_000_000_000);
    }
    let inner: i64 = milli_product(hw, scale);
    let size_y: i64 = milli_product(fb_h * 800, inner);
    match s.size {
        Size::Fixed(_, _) => {
            if size_y <= 0 {
                return None;
            }
            proof {
                lemma_product_cap(size_y as int, s.origin.y as int, 80_000_000_000_000, 1_000);
                lemma_milli_mul_bound(size_y as int, s.origin.y as int, 80_000_000_000_000, 1_000);
                lemma_product_cap(fb_w as int, s.tex_info.height as int, 100_000, 100_000);
                lemma_product_cap(size_y as int, s.tex_info.width as int, 80_000_000_000_000,
                    100_000);
                assert(0 < size_y * s.tex_info.width) by (nonlinear_arith)
                    requires
                        0 < size_y,
                        0 < s.tex_info.width;
                lemma_div_pos_is_pos(
                    fb_w * s.tex_info.height * 1_000_000,
                    size_y * s.tex_info.width,
                );
                lemma_div_is_ordered_by_denominator_pub(
                    fb_w * s.tex_info.height * 1_000_000,
                    size_y * s.tex_info.width,
                );
            }
            let y1: i64 = pos.y - milli_product(size_y, s.origin.y);
            let num: i64 = fb_w * s.tex_info.height * 1_000_000;
            let den: i64 = size_y * s.tex_info.width;
            let tw: i64 = num / den;
            Some(
                DrawCmd::Band {
                    texture: s.texture,
                    y1,
                    y2: y1 + size_y,
                    u1: 500 - tw / 2,
                    u2: 500 + tw / 2,
                },
            )
        },
        _ => {
            proof {
                lemma_aspect_width(size_y as int, s.tex_info);
                lemma_product_cap(size_y as int, s.tex_info.width as int, 80_000_000_000_000,
                    100_000);
            }
            let size_x: i64 = mul_div(size_y, s.tex_info.width, s.tex_info.height);
            proof {
                lemma_product_cap(size_x as int, s.origin.x as int, 8_000_000_000_000_000, 1_000);
                lemma_milli_mul_bound(size_x as int, s.origin.x as int, 8_000_000_000_000_000,
                    1_000);
                lemma_product_cap(size_y as int, s.origin.y as int, 80_000_000_000_000, 1_000);
                lemma_milli_mul_bound(size_y as int, s.origin.y as int, 80_000_000_000_000, 1_000);
            }
            let x: i64 = pos.x - milli_product(size_x, s.origin.x);
            let y: i64 = pos.y - milli_product(size_y, s.origin.y);
            Some(DrawCmd::Quad { texture: s.texture, x, y, width: size_x, height: size_y })
        },
    }
}

proof fn lemma_div_is_ordered_by_denominator_pub(x: int, d: int)
    requires
        0 <= x,
        0 < d,
    ensures
        x / d <= x,
{
    if d == 1 {
        lemma_div_basics(x);
    } else {
        lemma_div_is_ordered_by_denominator(x, 1, d);
        lemma_div_basics(x);
    }
}

impl GameState {
    /// The draw command for one textured quad at a world position, under
    /// this state's camera; `None` when the point sits at or behind the
    /// camera plane and has no finite projection.
    pub fn draw_texture(
        &self,
        fb_w: i64,
        fb_h: i64,
        texture: TextureId,
        tex_info: TextureInfo,
        position: Vec3,
        origin: Vec2,
        size: Size,
    ) -> (r: Option<DrawCmd>)
        requires
            self.wf(),
            1 <= fb_w <= 100_000,
            1 <= fb_h <= 100_000,
            sprite_in_range(Sprite { texture, tex_info, position, origin, size }),
        ensures
            r == sprite_cmd(
                self.camera,
                fb_w as int,
                fb_h as int,
                (Sprite { texture, tex_info, position, origin, size }),
            ),
    {
        let s = Sprite { texture, tex_info, position, origin, size };
        emit_sprite(&self.camera, fb_w, fb_h, &s)
    }
}

/// Emit the commands of a sprite list, in order.
pub fn emit_commands(cam: &Camera, fb_w: i64, fb_h: i64, sprites: &Vec<Sprite>) -> (r: Vec<
    DrawCmd,
>)
    requires
        cam.wf(),
        cam.camera_near <= 1_000,
        1 <= fb_w <= 100_000,
        1 <= fb_h <= 100_000,
        forall|i: int|
            0 <= i < sprites@.len() ==> sprite_in_range(#[trigger] sprites@[i]),
    ensures
        r@ == emit_all(*cam, fb_w as int, fb_h as int, sprites@),
{
    let mut out: Vec<DrawCmd> = Vec::new();
    let mut i: usize = 0;
    proof {
        assert(sprites@.take(0) =~= Seq::<Sprite>::empty());
    }
    while i < sprites.len()
        invariant
            cam.wf(),
            cam.camera_near <= 1_000,
            1 <= fb_w <= 100_000,
            1 <= fb_h <= 100_000,
            i <= sprites@.len(),
            forall|k: int|
                0 <= k < sprites@.len() ==> sprite_in_range(#[trigger] sprites@[k]),
            out@ == emit_all(*cam, fb_w as int, fb_h as int, sprites@.take(i as int)),
        decreases sprites@.len() - i,
    {
        let s: Sprite = sprites[i];
        proof {
            assert(sprites@.take(i as int + 1).drop_last() =~= sprites@.take(i as int));
            assert(sprites@.take(i as int + 1).last() == s);
        }
        match emit_sprite(cam, fb_w, fb_h, &s) {
            Some(c) => {
                out.push(c);
            },
            None => {},
        }
        i = i + 1;
    }
    proof {
        assert(sprites@.take(sprites@.len() as int) =~= sprites@);
    }
    out
}

/// Index of the first sprite at the minimal world distance: the selection
/// the depth sort repeatedly takes, so equal distances keep first-come
/// order.
pub open spec fn first_min_index(s: Seq<Sprite>) -> int
    decreases s.len(),
{
    if s.len() <= 1 {
        0
    } else {
        let m = first_min_index(s.drop_last());
        if s.last().position.y < s[m].position.y {
            s.len() - 1
        } else {
            m
        }
    }
}

proof fn lemma_first_min_index_in_range(s: Seq<Sprite>)
    requires
        s.len() >= 1,
    ensures
        0 <= first_min_index(s) < s.len(),
    decreases s.len(),
{
    if s.len() > 1 {
        lemma_first_min_index_in_range(s.drop_last());
    }
}

/// The depth order of a sprite list: repeatedly take the earliest sprite at
/// the minimal distance. Ascending, and stable — sprites at equal distances
/// keep their relative order, so ties cannot flicker between frames.
pub open spec fn stable_depth_order(s: Seq<Sprite>) -> Seq<Sprite>
    decreases s.len(),
        via stable_depth_order_decreases
{
    if s.len() == 0 {
        s
    } else {
        let m = first_min_index(s);
        seq![s[m]] + stable_depth_order(s.remove(m))
    }
}

#[via_fn]
proof fn stable_depth_order_decreases(s: Seq<Sprite>) {
    if s.len() != 0 {
        lemma_first_min_index_in_range(s);
    }
}

/// Sorted ascending by world distance: the painter's order.
pub open spec fn depth_sorted(s: Seq<Sprite>) -> bool {
    forall|a: int, b: int|
        0 <= a < b < s.len() ==> (#[trigger] s[a]).position.y <= (#[trigger] s[b]).position.y
}

/// Depth-sort the sprites ascending by world distance. Equal distances keep
/// their first-come order (the selection below always takes the earliest
/// strict minimum), so ties cannot flicker between frames.
pub fn depth_sort(v: &mut Vec<Sprite>)
    ensures
        final(v)@ == stable_depth_order(old(v)@),
        final(v)@.len() == old(v)@.len(),
        final(v)@.to_multiset() == old(v)@.to_multiset(),
        depth_sorted(final(v)@),
{
    let mut out: Vec<Sprite> = Vec::new();
    proof {
        broadcast use vstd::seq_lib::group_to_multiset_ensures;

        assert(out@.to_multiset().add(v@.to_multiset()) =~= v@.to_multiset());
    }
    proof {
        assert(out@ + stable_depth_order(v@) =~= stable_depth_order(old(v)@));
    }
    while v.len() > 0
        invariant
            out@ + stable_depth_order(v@) == stable_depth_order(old(v)@),
            out@.to_multiset().add(v@.to_multiset()) == old(v)@.to_multiset(),
            out@.len() + v@.len() == old(v)@.len(),
            depth_sorted(out@),
            forall|a: int, b: int|
                0 <= a < out@.len() && 0 <= b < v@.len() ==> (#[trigger] out@[a]).position.y <= (
                #[trigger] v@[b]).position.y,
        decreases v@.len(),
    {
        let mut m: usize = 0;
        let mut k: usize = 1;
        proof {
            assert(v@.take(1).len() == 1);
        }
        while k < v.len()
            invariant
                0 < v@.len(),
                m < k <= v@.len(),
                m as int == first_min_index(v@.take(k as int)),
                forall|t: int| 0 <= t < k ==> (#[trigger] v@[t]).position.y >= v@[m as int].position.y,
            decreases v@.len() - k,
        {
            proof {
                assert(v@.take(k as int + 1).drop_last() =~= v@.take(k as int));
                assert(v@.take(k as int + 1).last() == v@[k as int]);
                lemma_first_min_index_in_range(v@.take(k as int));
                assert(v@.take(k as int + 1)[m as int] == v@[m as int]);
            }
            if v[k].position.y < v[m].position.y {
                m = k;
            }
            k = k + 1;
        }
        proof {
            assert(v@.take(v@.len() as int) =~= v@);
            assert(m as int == first_min_index(v@));
        }
        let ghost pre = v@;
        let ghost out_prev = out@;
        let x: Sprite = v.remove(m);
        out.push(x);
        proof {
            broadcast use vstd::seq_lib::group_to_multiset_ensures;

            assert(out@.to_multiset().add(v@.to_multiset()) =~= old(v)@.to_multiset());
            assert(stable_depth_order(pre) == seq![pre[m as int]] + stable_depth_order(
                pre.remove(m as int),
            ));
            assert(out@ =~= out_prev + seq![x]);
            assert(out_prev + (seq![x] + stable_depth_order(v@)) =~= (out_prev + seq![x])
                + stable_depth_order(v@));
        }
    }
    proof {
        assert(v@.to_multiset() =~= Multiset::<Sprite>::empty());
        assert(out@.to_multiset().add(v@.to_multiset()) =~= out@.to_multiset());
        assert(stable_depth_order(v@) =~= Seq::<Sprite>::empty());
        assert(out@ + stable_depth_order(v@) =~= out@);
    }
    *v = out;
}

/// The pixel size behind a scenery handle.
pub open spec fn scenery_info(a: GameAssets, t: TextureId) -> TextureInfo {
    match t {
        TextureId::House(i) => a.houses@[i as int],
        TextureId::BeachHouse(i) => a.beach_houses@[i as int],
        TextureId::Car(i) => a.cars@[i as int],
        _ => a.road,
    }
}

/// The sprite a house shows: bottom-centred, one world unit wide.
pub open spec fn house_sprite(a: GameAssets, d: Decor) -> Sprite {
    Sprite {
        texture: d.texture,
        tex_info: scenery_info(a, d.texture),
        position: Vec3 { x: d.position.x, y: d.position.y, z: 0 },
        origin: Vec2 { x: 500, y: 0 },
        size: Size::FixedWidth(1000),
    }
}

/// The sprite a parked car shows.
pub open spec fn obstacle_sprite(a: GameAssets, d: Decor) -> Sprite {
    Sprite {
        texture: d.texture,
        tex_info: scenery_info(a, d.texture),
        position: Vec3 { x: d.position.x, y: d.position.y, z: 0 },
        origin: Vec2 { x: 500, y: 0 },
        size: Size::FixedWidth(280),
    }
}

/// The wave's sprite: a fixed-size band at the hazard's distance, with the
/// frame picked by its own animation phase.
pub open spec fn wave_sprite(gs: GameState) -> Sprite {
    let n = gs.assets.tsunami.frames@.len() as int;
    let raw = gs.tsunami_animation * n / 1000;
    let idx = if raw >= n {
        n - 1
    } else {
        raw
    };
    Sprite {
        texture: TextureId::Wave { frame: idx as usize },
        tex_info: gs.assets.tsunami.frames@[idx],
        position: Vec3 { x: 0, y: gs.tsunami_position, z: 0 },
        origin: Vec2 { x: 500, y: 200 },
        size: Size::Fixed(1_000_000, 2_000),
    }
}

/// Every sprite of one frame, in collection order: scenery always; then,
/// unless the run is over, the cars, the player, the other runners and the
/// wave. Once the run is over only scenery is shown.
pub open spec fn sprites_of(gs: GameState) -> Seq<Sprite> {
    let hs = Seq::new(gs.houses@.len(), |i: int| house_sprite(gs.assets, gs.houses@[i]));
    if gs.game_finished_spec() {
        hs
    } else {
        hs + Seq::new(gs.obstacles@.len(), |i: int| obstacle_sprite(gs.assets, gs.obstacles@[i]))
            + seq![gs.player.sprite_spec(gs.assets.character)] + Seq::new(
            gs.characters@.len(),
            |i: int| gs.characters@[i].sprite_spec(gs.assets.character),
        ) + seq![wave_sprite(gs)]
    }
}

/// Collect the sprites of one frame.
pub fn collect_sprites(gs: &GameState) -> (r: Vec<Sprite>)
    requires
        gs.wf(),
        mag(gs.tsunami_position as int) <= DIST_CAP,
    ensures
        r@ == sprites_of(*gs),
        forall|i: int| 0 <= i < r@.len() ==> sprite_in_range(#[trigger] r@[i]),
{
    let mut out: Vec<Sprite> = Vec::new();
    let mut i: usize = 0;
    while i < gs.houses.len()
        invariant
            gs.wf(),
            i <= gs.houses@.len(),
            out@.len() == i,
            forall|k: int|
                0 <= k < i ==> #[trigger] out@[k] == house_sprite(gs.assets, gs.houses@[k]),
            forall|k: int| 0 <= k < i ==> sprite_in_range(#[trigger] out@[k]),
        decreases gs.houses@.len() - i,
    {
        let d: Decor = gs.houses[i];
        let tex: TextureInfo = match d.texture {
            TextureId::House(t) => gs.assets.houses[t],
            TextureId::BeachHouse(t) => gs.assets.beach_houses[t],
            _ => gs.assets.road,
        };
        out.push(
            Sprite {
                texture: d.texture,
                tex_info: tex,
                position: d.position.extend(0),
                origin: Vec2 { x: 500, y: 0 },
                size: Size::FixedWidth(1000),
            },
        );
        i = i + 1;
    }
    if !gs.game_finished() {
        let mut j: usize = 0;
        while j < gs.obstacles.len()
            invariant
                gs.wf(),
                !gs.game_finished_spec(),
                j <= gs.obstacles@.len(),
                out@.len() == gs.houses@.len() + j,
                forall|k: int|
                    0 <= k < gs.houses@.len() ==> #[trigger] out@[k] == house_sprite(
                        gs.assets,
                        gs.houses@[k],
                    ),
                forall|k: int|
                    0 <= k < j ==> #[trigger] out@[gs.houses@.len() + k] == obstacle_sprite(
                        gs.assets,
                        gs.obstacles@[k],
                    ),
                forall|k: int| 0 <= k < out@.len() ==> sprite_in_range(#[trigger] out@[k]),
            decreases gs.obstacles@.len() - j,
        {
            let d: Decor = gs.obstacles[j];
            let tex: TextureInfo = match d.texture {
                TextureId::Car(t) => gs.assets.cars[t],
                _ => gs.assets.road,
            };
            out.push(
                Sprite {
                    texture: d.texture,
                    tex_info: tex,
                    position: d.position.extend(0),
                    origin: Vec2 { x: 500, y: 0 },
                    size: Size::FixedWidth(280),
                },
            );
            j = j + 1;
        }
        out.push(gs.player.draw(&gs.assets.character));
        let mut k: usize = 0;
        while k < gs.characters.len()
            invariant
                gs.wf(),
                !gs.game_finished_spec(),
                k <= gs.characters@.len(),
                out@.len() == gs.houses@.len() + gs.obstacles@.len() + 1 + k,
                forall|t: int|
                    0 <= t < gs.houses@.len() ==> #[trigger] out@[t] == house_sprite(
                        gs.assets,
                        gs.houses@[t],
                    ),
                forall|t: int|
                    0 <= t < gs.obstacles@.len() ==> #[trigger] out@[gs.houses@.len() + t]
                        == obstacle_sprite(gs.assets, gs.obstacles@[t]),
                out@[gs.houses@.len() + gs.obstacles@.len() as int] == gs.player.sprite_spec(
                    gs.assets.character,
                ),
                forall|t: int|
                    0 <= t < k ==> #[trigger] out@[gs.houses@.len() + gs.obstacles@.len() + 1 + t]
                        == gs.characters@[t].sprite_spec(gs.assets.character),
                forall|t: int| 0 <= t < out@.len() ==> sprite_in_range(#[trigger] out@[t]),
            decreases gs.characters@.len() - k,
        {
            let c: Character = gs.characters[k];
            out.push(c.draw(&gs.assets.character));
            k = k + 1;
        }
        let n: usize = gs.assets.tsunami.frames.len();
        proof {
            lemma_product_cap(gs.tsunami_animation as int, n as int, 999, 1_000_000);
        }
        let raw: usize = (gs.tsunami_animation as usize) * n / 1000;
        let idx: usize = if raw >= n {
            n - 1
        } else {
            raw
        };
        let wave_tex: TextureInfo = gs.assets.tsunami.frames[idx];
        out.push(
            Sprite {
                texture: TextureId::Wave { frame: idx },
                tex_info: wave_tex,
                position: Vec3 { x: 0, y: gs.tsunami_position, z: 0 },
                origin: Vec2 { x: 500, y: 200 },
                size: Size::Fixed(1_000_000, 2_000),
            },
        );
        proof {
            let h = gs.houses@.len() as int;
            let o = gs.obstacles@.len() as int;
            let cn = gs.characters@.len() as int;
            assert forall|i2: int| 0 <= i2 < out@.len() implies out@[i2] == sprites_of(*gs)[i2] by {
                if i2 < h {
                } else if i2 < h + o {
                    let t = i2 - h;
                    assert(out@[gs.houses@.len() + t] == obstacle_sprite(
                        gs.assets,
                        gs.obstacles@[t],
                    ));
                } else if i2 == h + o {
                } else if i2 < h + o + 1 + cn {
                    let t = i2 - h - o - 1;
                    assert(out@[gs.houses@.len() + gs.obstacles@.len() + 1 + t]
                        == gs.characters@[t].sprite_spec(gs.assets.character));
                } else {
                }
            }
            assert(out@ =~= sprites_of(*gs));
        }
    } else {
        proof {
            assert(out@ =~= sprites_of(*gs));
        }
    }
    out
}

/// One whole frame: collect, depth-sort stably, project. The commands are
/// exactly those of the frame's sprites in their stable depth order.
pub fn compose_frame(gs: &GameState, fb_w: i64, fb_h: i64) -> (r: Vec<DrawCmd>)
    requires
        gs.wf(),
        1 <= fb_w <= 100_000,
        1 <= fb_h <= 100_000,
        mag(gs.tsunami_position as int) <= DIST_CAP,
    ensures
        r@ == emit_all(
            gs.camera,
            fb_w as int,
            fb_h as int,
            stable_depth_order(sprites_of(*gs)),
        ),
        exists|ss: Seq<Sprite>|
            {
                &&& ss.to_multiset() == sprites_of(*gs).to_multiset()
                &&& depth_sorted(ss)
                &&& r@ == emit_all(gs.camera, fb_w as int, fb_h as int, ss)
            },
{
    let mut sprites: Vec<Sprite> = collect_sprites(gs);
    let ghost orig = sprites@;
    depth_sort(&mut sprites);
    proof {
        broadcast use vstd::seq_lib::group_to_multiset_ensures;

        assert forall|i: int| 0 <= i < sprites@.len() implies sprite_in_range(
            #[trigger] sprites@[i],
        ) by {
            assert(sprites@.to_multiset().contains(sprites@[i]));
            assert(orig.to_multiset().contains(sprites@[i]));
            assert(orig.contains(sprites@[i]));
            let j = choose|j: int| 0 <= j < orig.len() && orig[j] == sprites@[i];
        }
    }
    let r: Vec<DrawCmd> = emit_commands(&gs.camera, fb_w, fb_h, &sprites);
    proof {
        let ss = sprites@;
        assert(ss.to_multiset() == sprites_of(*gs).to_multiset() && depth_sorted(ss) && r@
            == emit_all(gs.camera, fb_w as int, fb_h as int, ss));
    }
    r
}

/// Linear interpolation between the clamped ends of the road band.
pub open spec fn road_lerp(lo: int, hi: int, i: int) -> int {
    lo + (hi - lo) * i / 1000
}

proof fn lemma_road_lerp_bounds(lo: int, hi: int, i: int)
    requires
        lo <= hi,
        0 <= i <= 1000,
    ensures
        lo <= road_lerp(lo, hi, i) <= hi,
{
    assert(0 <= (hi - lo) * i) by (nonlinear_arith)
        requires
            0 <= hi - lo,
            0 <= i;
    assert((hi - lo) * i <= 1000 * (hi - lo)) by (nonlinear_arith)
        requires
            0 <= hi - lo,
            0 <= i <= 1000;
    lemma_div_pos_is_pos((hi - lo) * i, 1000);
    lemma_div_is_ordered((hi - lo) * i, 1000 * (hi - lo), 1000);
    lemma_div_multiples_vanish(hi - lo, 1000);
}

/// One vertex of the road strip: segment `k / 6`, corner `k % 6`. The six
/// corners form the segment's two triangles, in the order far-left,
/// far-right, near-right, far-left, near-right, near-left.
pub open spec fn road_vertex(cam: Camera, fb_w: int, fb_h: int, lo: int, hi: int, k: int)
    -> RoadVertex {
    let seg = k / 6;
    let c = k % 6;
    let near_d = road_lerp(lo, hi, seg);
    let far_d = road_lerp(lo, hi, seg + 1);
    let d = if c == 2 || c == 4 || c == 5 {
        near_d
    } else {
        far_d
    };
    let left = c == 0 || c == 3 || c == 5;
    let x = if left {
        -cam.road_ratio as int
    } else {
        cam.road_ratio as int
    };
    RoadVertex {
        x: cam.pixel_x_at(fb_w, fb_h, x, d) as i64,
        y: cam.pixel_y_at(fb_w, fb_h, d, 0) as i64,
        u: if left {
            0
        } else {
            1000
        },
        v: quot_toward_zero(d, 10) as i64,
    }
}

/// Tessellate the road band between two distances into a thousand quads (two
/// triangles each), clamped to the camera window; empty when the clamped
/// band is empty. The `v` texture coordinate advances with world distance at
/// a tenth of a unit per tile.
pub fn road_strip(cam: &Camera, fb_w: i64, fb_h: i64, near_pos: i64, far_pos: i64) -> (r: Vec<
    RoadVertex,
>)
    requires
        cam.wf(),
        1 <= fb_w <= 100_000,
        1 <= fb_h <= 100_000,
        -DIST_CAP <= near_pos <= DIST_CAP,
        -DIST_CAP <= far_pos <= DIST_CAP,
    ensures
        ({
            let lo = if near_pos >= cam.far_distance {
                near_pos as int
            } else {
                cam.far_distance as int
            };
            let hi = if far_pos <= cam.near_distance {
                far_pos as int
            } else {
                cam.near_distance as int
            };
            if hi < lo {
                r@.len() == 0
            } else {
                r@.len() == 6000 && forall|k: int|
                    0 <= k < 6000 ==> r@[k] == road_vertex(
                        *cam,
                        fb_w as int,
                        fb_h as int,
                        lo,
                        hi,
                        k,
                    )
            }
        }),
{
    let lo: i64 = if near_pos >= cam.far_distance {
        near_pos
    } else {
        cam.far_distance
    };
    let hi: i64 = if far_pos <= cam.near_distance {
        far_pos
    } else {
        cam.near_distance
    };
    let mut out: Vec<RoadVertex> = Vec::new();
    if hi < lo {
        return out;
    }
    let mut i: usize = 0;
    while i < 1000
        invariant
            cam.wf(),
            1 <= fb_w <= 100_000,
            1 <= fb_h <= 100_000,
            -DIST_CAP <= lo <= hi <= DIST_CAP,
            hi <= cam.near_distance,
            i <= 1000,
            out@.len() == 6 * i,
            forall|k: int|
                0 <= k < 6 * i ==> out@[k] == road_vertex(
                    *cam,
                    fb_w as int,
                    fb_h as int,
                    lo as int,
                    hi as int,
                    k,
                ),
        decreases 1000 - i,
    {
        proof {
            lemma_road_lerp_bounds(lo as int, hi as int, i as int);
            lemma_road_lerp_bounds(lo as int, hi as int, i as int + 1);
            lemma_product_cap(hi - lo, i as int, 4_000_000_000, 1000);
            lemma_product_cap(hi - lo, i as int + 1, 4_000_000_000, 1001);
            lemma_div_pos_is_pos((hi - lo) * (i as int), 1000);
            lemma_div_pos_is_pos((hi - lo) * (i as int + 1), 1000);
        }
        let near_d: i64 = lo + (hi - lo) * (i as i64) / 1000;
        let far_d: i64 = lo + (hi - lo) * (i as i64 + 1) / 1000;
        let rr: i64 = cam.road_ratio;
        let fl: Vec2 = unwrap_screen(cam, fb_w, fb_h, -rr, far_d);
        let fr: Vec2 = unwrap_screen(cam, fb_w, fb_h, rr, far_d);
        let nr: Vec2 = unwrap_screen(cam, fb_w, fb_h, rr, near_d);
        let nl: Vec2 = unwrap_screen(cam, fb_w, fb_h, -rr, near_d);
        let v_far: i64 = crate::fixed::div_toward_zero(far_d, 10);
        let v_near: i64 = crate::fixed::div_toward_zero(near_d, 10);
        out.push(RoadVertex { x: fl.x, y: fl.y, u: 0, v: v_far });
        out.push(RoadVertex { x: fr.x, y: fr.y, u: 1000, v: v_far });
        out.push(RoadVertex { x: nr.x, y: nr.y, u: 1000, v: v_near });
        out.push(RoadVertex { x: fl.x, y: fl.y, u: 0, v: v_far });
        out.push(RoadVertex { x: nr.x, y: nr.y, u: 1000, v: v_near });
        out.push(RoadVertex { x: nl.x, y: nl.y, u: 0, v: v_near });
        proof {
            assert forall|k: int| 6 * i <= k < 6 * (i as int + 1) implies out@[k] == road_vertex(
                *cam,
                fb_w as int,
                fb_h as int,
                lo as int,
                hi as int,
                k,
            ) by {
                let c = k - 6 * (i as int);
                vstd::arithmetic::div_mod::lemma_fundamental_div_mod_converse(k, 6, i as int, c);
            }
        }
        i = i + 1;
    }
    out
}

/// Projection of a road corner; the clamped band never reaches the camera
/// plane, so the projection always exists.
fn unwrap_screen(cam: &Camera, fb_w: i64, fb_h: i64, x: i64, d: i64) -> (r: Vec2)
    requires
        cam.wf(),
        1 <= fb_w <= 100_000,
        1 <= fb_h <= 100_000,
        mag(x as int) <= 10_000,
        -DIST_CAP <= d <= cam.near_distance,
    ensures
        r.x == cam.pixel_x_at(fb_w as int, fb_h as int, x as int, d as int),
        r.y == cam.pixel_y_at(fb_w as int, fb_h as int, d as int, 0),
{
    match cam.to_screen(fb_w, fb_h, Vec3 { x, y: d, z: 0 }) {
        Some((p, _)) => p,
        None => {
            proof {
                assert(false);
            }
            Vec2 { x: 0, y: 0 }
        },
    }
}

} // verus!
