//! Pseudo-3D camera: a perspective divide that turns a world point (lateral
//! lane offset, forward distance, height) into a screen position and a scale
//! factor, plus the mapping from screen space to viewport pixels.

use vstd::prelude::*;
use vstd::arithmetic::div_mod::{
    lemma_div_basics, lemma_div_is_ordered_by_denominator, lemma_div_pos_is_pos,
};
use crate::fixed::{lemma_milli_mul_bound, lemma_product_cap, mag, milli_mul, milli_product};

verus! {

/// Every simulated distance stays within this cap, so that the fixed-point
/// products of the projection fit comfortably in 64 bits.
pub const DIST_CAP: i64 = 2_000_000_000;

/// How far ahead of the followed position the near edge of the window sits.
pub const LOOKAHEAD: i64 = 2_000;

/// How far behind the followed position the far edge of the window sits.
pub const VISIBLE_BEHIND: i64 = 10_000;

/// Lateral offset (`x`) and forward distance (`y`) of a point on the road.
#[derive(Clone, Copy, PartialEq, Eq, Structural, Debug)]
pub struct Vec2 {
    pub x: i64,
    pub y: i64,
}

/// A road point extended with a height (`z`) above the road surface.
#[derive(Clone, Copy, PartialEq, Eq, Structural, Debug)]
pub struct Vec3 {
    pub x: i64,
    pub y: i64,
    pub z: i64,
}

impl Vec2 {
    pub fn extend(self, z: i64) -> (r: Vec3)
        ensures
            r == (Vec3 { x: self.x, y: self.y, z }),
    {
        Vec3 { x: self.x, y: self.y, z }
    }
}

/// A projected point: screen position in milli-units and the perspective
/// scale factor at its distance.
#[derive(Clone, Copy, PartialEq, Eq, Structural, Debug)]
pub struct Projection {
    pub screen: Vec2,
    pub scale: i64,
}

/// The camera window over the road, together with the projection constants.
#[derive(Clone, Copy, PartialEq, Eq, Structural, Debug)]
pub struct Camera {
    pub near_distance: i64,
    pub far_distance: i64,
    pub camera_near: i64,
    pub road_ratio: i64,
}

impl Camera {
    pub open spec fn wf(self) -> bool {
        &&& 0 < self.camera_near <= 10_000
        &&& 0 < self.road_ratio <= 10_000
        &&& -DIST_CAP <= self.far_distance < self.near_distance <= DIST_CAP
    }

    /// Distance of the camera plane; a point at or past it is behind the
    /// camera and cannot be drawn.
    pub open spec fn plane(self) -> int {
        self.near_distance + self.camera_near
    }

    /// Denominator of the perspective divide at a given distance.
    pub open spec fn scale_denom(self, distance: int) -> int {
        self.plane() - distance
    }

    /// Fixed-point perspective scale at a given distance:
    /// `camera_near / (near_distance + camera_near - distance)`.
    pub open spec fn scale_at(self, distance: int) -> int {
        (self.camera_near * 1000) / self.scale_denom(distance)
    }

    pub open spec fn screen_x_at(self, lane: int, distance: int) -> int {
        milli_mul(milli_mul(lane, self.scale_at(distance)), self.road_ratio as int)
    }

    pub open spec fn screen_y_at(self, distance: int, height: int) -> int {
        self.scale_at(distance) - milli_mul(height, self.scale_at(distance))
    }

    /// The horizon sits at four fifths of the viewport height; screen y grows
    /// downward from it in the emitted pixel space.
    pub open spec fn pixel_x_at(self, fb_w: int, fb_h: int, lane: int, distance: int) -> int {
        self.screen_x_at(lane, distance) * fb_h + fb_w * 500
    }

    pub open spec fn pixel_y_at(self, fb_w: int, fb_h: int, distance: int, height: int) -> int {
        milli_mul(fb_h * 800, 1000 - self.screen_y_at(distance, height))
    }

    /// Re-aim the window at a followed position: the near edge sits a fixed
    /// lookahead ahead of it, the far edge a fixed depth behind it.
    pub fn look_at(&mut self, position: i64)
        requires
            old(self).wf(),
            -DIST_CAP + VISIBLE_BEHIND <= position <= DIST_CAP - LOOKAHEAD,
        ensures
            final(self).near_distance == position + LOOKAHEAD,
            final(self).far_distance == position - VISIBLE_BEHIND,
            final(self).camera_near == old(self).camera_near,
            final(self).road_ratio == old(self).road_ratio,
            final(self).wf(),
    {
        self.near_distance = position + LOOKAHEAD;
        self.far_distance = position - VISIBLE_BEHIND;
    }

    /// Perspective projection. `None` means the point is at or behind the
    /// camera plane, where the divide has no finite value: callers skip it.
    pub fn project(&self, p: Vec3) -> (r: Option<Projection>)
        requires
            self.wf(),
            mag(p.x as int) <= 10_000,
            mag(p.z as int) <= 10_000,
            -DIST_CAP <= p.y <= DIST_CAP,
        ensures
            r is Some <==> p.y < self.plane(),
            r matches Some(pr) ==> {
                &&& pr.scale == self.scale_at(p.y as int)
                &&& pr.screen.x == self.screen_x_at(p.x as int, p.y as int)
                &&& pr.screen.y == self.screen_y_at(p.y as int, p.z as int)
                &&& 0 <= pr.scale <= 10_000_000
                &&& mag(pr.screen.x as int) <= 1_000_000_000
                &&& mag(pr.screen.y as int) <= 200_000_000
            },
    {
        let plane: i64 = self.near_distance + self.camera_near;
        if p.y >= plane {
            return None;
        }
        let denom: i64 = plane - p.y;
        let scale: i64 = (self.camera_near * 1000) / denom;
        proof {
            lemma_div_pos_is_pos(self.camera_near * 1000, denom as int);
            lemma_div_is_ordered_by_denominator(self.camera_near * 1000, 1, denom as int);
            lemma_div_basics(self.camera_near * 1000);
            assert(scale <= 10_000_000);
            lemma_product_cap(p.x as int, scale as int, 10_000, 10_000_000);
        }
        let inner: i64 = milli_product(p.x, scale);
        proof {
            lemma_milli_mul_bound(p.x as int, scale as int, 10_000, 10_000_000);
            lemma_product_cap(inner as int, self.road_ratio as int, 100_000_000, 10_000);
            lemma_milli_mul_bound(inner as int, self.road_ratio as int, 100_000_000, 10_000);
            lemma_product_cap(p.z as int, scale as int, 10_000, 10_000_000);
            lemma_milli_mul_bound(p.z as int, scale as int, 10_000, 10_000_000);
        }
        let sx: i64 = milli_product(inner, self.road_ratio);
        let sy: i64 = scale - milli_product(p.z, scale);
        Some(Projection { screen: Vec2 { x: sx, y: sy }, scale })
    }

    /// Projection straight to viewport pixels, in milli-pixels.
    pub fn to_screen(&self, fb_w: i64, fb_h: i64, p: Vec3) -> (r: Option<(Vec2, i64)>)
        requires
            self.wf(),
            mag(p.x as int) <= 10_000,
            mag(p.z as int) <= 10_000,
            -DIST_CAP <= p.y <= DIST_CAP,
            1 <= fb_w <= 100_000,
            1 <= fb_h <= 100_000,
        ensures
            r is Some <==> p.y < self.plane(),
            r matches Some((pos, scale)) ==> {
                &&& scale == self.scale_at(p.y as int)
                &&& pos.x == self.pixel_x_at(fb_w as int, fb_h as int, p.x as int, p.y as int)
                &&& pos.y == self.pixel_y_at(fb_w as int, fb_h as int, p.y as int, p.z as int)
                &&& 0 <= scale <= 10_000_000
                &&& mag(pos.x as int) <= 200_000_000_000_000
                &&& mag(pos.y as int) <= 200_000_000_000_000
            },
    {
        match self.project(p) {
            None => None,
            Some(pr) => {
                proof {
                    lemma_product_cap(pr.screen.x as int, fb_h as int, 1_000_000_000, 100_000);
                }
                let px: i64 = pr.screen.x * fb_h + fb_w * 500;
                proof {
                    lemma_product_cap(fb_h * 800, 1000 - pr.screen.y, 80_000_000, 200_001_000);
                    lemma_milli_mul_bound(
                        fb_h * 800,
                        1000 - pr.screen.y,
                        80_000_000,
                        200_001_000,
                    );
                }
                let py: i64 = milli_product(fb_h * 800, 1000 - pr.screen.y);
                Some((Vec2 { x: px, y: py }, pr.scale))
            },
        }
    }
}

/// The perspective scale — as the exact rational
/// `camera_near / (near_distance + camera_near - distance)` — is strictly
/// increasing in the distance, for any fixed camera, up to the camera plane.
/// Cross-multiplied: a nearer denominator is strictly smaller, so the scale
/// at the larger distance strictly exceeds the scale at the smaller one.
/// The returned milli-unit scale truncates that rational, so of it only
/// monotonicity is stated: two nearby distances can quantize to a tie.
pub proof fn lemma_scale_strictly_increasing(cam: Camera, d1: int, d2: int)
    requires
        cam.wf(),
        d1 < d2 < cam.plane(),
    ensures
        0 < cam.scale_denom(d2) < cam.scale_denom(d1),
        cam.camera_near * cam.scale_denom(d2) < cam.camera_near * cam.scale_denom(d1),
        cam.scale_at(d1) <= cam.scale_at(d2),
{
    let den1: int = cam.scale_denom(d1);
    let den2: int = cam.scale_denom(d2);
    assert(cam.camera_near * den2 < cam.camera_near * den1) by (nonlinear_arith)
        requires
            0 < den2 < den1,
            0 < cam.camera_near;
    lemma_div_is_ordered_by_denominator(cam.camera_near * 1000, den2, den1);
}

} // verus!
