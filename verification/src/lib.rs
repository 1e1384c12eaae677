//! Core of a CPU path-tracing renderer: the discrete, exactly-specified parts.
//!
//! The floating-point geometry and shading pipeline lives in the surrounding
//! application; this crate holds the logic that can be pinned down exactly:
//! scanline partitioning for the parallel render driver, the pixel buffer and
//! its plain PPM encoding, image-texture storage, configuration parsing, the
//! scene name table, the axis machinery of axis-aligned rectangles, and the
//! exact bounds of the scattering model's reflectance formula.

pub mod cli;
pub mod image;
pub mod material;
pub mod object;
pub mod render;
pub mod scenes;
pub mod texture;

use vstd::prelude::*;

verus! {

/// This trait attaches the [`clamp_`](Self::clamp_) method to a type.
///
/// [`clamp_`](Self::clamp_) is the only method it has. It has an underscore
/// to avoid conflicts with the inherent `clamp` methods.
pub trait Clampable: Sized {
    /// The strict order [`clamp_`](Self::clamp_) restricts by.
    spec fn below(self, other: Self) -> bool;

    /// Restricts the value of `self` to be in [`min`, `max`].
    fn clamp_(self, min: Self, max: Self) -> (r: Self)
        ensures
            r == (if self.below(min) {
                min
            } else if max.below(self) {
                max
            } else {
                self
            }),
    ;
}

impl Clampable for usize {
    open spec fn below(self, other: usize) -> bool {
        self < other
    }

    fn clamp_(self, min: usize, max: usize) -> (r: usize) {
        if self < min {
            min
        } else if self > max {
            max
        } else {
            self
        }
    }
}

impl Clampable for u8 {
    open spec fn below(self, other: u8) -> bool {
        self < other
    }

    fn clamp_(self, min: u8, max: u8) -> (r: u8) {
        if self < min {
            min
        } else if self > max {
            max
        } else {
            self
        }
    }
}

impl Clampable for u64 {
    open spec fn below(self, other: u64) -> bool {
        self < other
    }

    fn clamp_(self, min: u64, max: u64) -> (r: u64) {
        if self < min {
            min
        } else if self > max {
            max
        } else {
            self
        }
    }
}

} // verus!
