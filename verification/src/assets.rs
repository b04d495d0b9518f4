//! The simulation does not decode textures or animations; it only needs their
//! shape: how many frames an animation has and the pixel size of each frame,
//! which fixes the aspect ratio of the emitted quads. The handles the render
//! pass emits are indices back into these pools.

use vstd::prelude::*;

verus! {

/// Pixel size of a decoded texture.
#[derive(Clone, Copy, PartialEq, Eq, Structural, Debug)]
pub struct TextureInfo {
    pub width: i64,
    pub height: i64,
}

impl TextureInfo {
    pub open spec fn wf(self) -> bool {
        &&& 1 <= self.width <= 100_000
        &&& 1 <= self.height <= 100_000
        &&& self.height <= 100 * self.width
        &&& self.width <= 100 * self.height
    }
}

/// A multi-frame animation, indexable by a phase-derived frame index.
#[derive(Debug)]
pub struct Animation {
    pub frames: Vec<TextureInfo>,
}

impl Animation {
    pub open spec fn wf(self) -> bool {
        &&& 1 <= self.frames.len() <= 1_000_000
        &&& forall|i: int| 0 <= i < self.frames.len() ==> (#[trigger] self.frames[i]).wf()
    }

    pub fn frame_count(&self) -> (n: usize)
        ensures
            n == self.frames.len(),
    {
        self.frames.len()
    }
}

/// The three animations a character can show, one per state.
#[derive(Debug)]
pub struct Assets {
    pub run: Animation,
    pub fall: Animation,
    pub fall_side: Animation,
}

impl Assets {
    pub open spec fn wf(self) -> bool {
        &&& self.run.wf()
        &&& self.fall.wf()
        &&& self.fall_side.wf()
    }
}

/// Everything the world spawns or draws, reduced to counts and pixel sizes.
/// An empty pool would make a random pick impossible, so well-formedness
/// demands at least one entry in each; that is checked once at construction.
#[derive(Debug)]
pub struct GameAssets {
    pub character: Assets,
    pub houses: Vec<TextureInfo>,
    pub beach_houses: Vec<TextureInfo>,
    pub cars: Vec<TextureInfo>,
    pub tsunami: Animation,
    pub road: TextureInfo,
    pub sand_road: TextureInfo,
    pub pierce: TextureInfo,
}

impl GameAssets {
    pub open spec fn wf(self) -> bool {
        &&& self.character.wf()
        &&& 1 <= self.houses.len() <= 1_000_000
        &&& forall|i: int| 0 <= i < self.houses.len() ==> (#[trigger] self.houses[i]).wf()
        &&& 1 <= self.beach_houses.len() <= 1_000_000
        &&& forall|i: int|
            0 <= i < self.beach_houses.len() ==> (#[trigger] self.beach_houses[i]).wf()
        &&& 1 <= self.cars.len() <= 1_000_000
        &&& forall|i: int| 0 <= i < self.cars.len() ==> (#[trigger] self.cars[i]).wf()
        &&& self.tsunami.wf()
        &&& self.road.wf()
        &&& self.sand_road.wf()
        &&& self.pierce.wf()
    }
}

} // verus!
