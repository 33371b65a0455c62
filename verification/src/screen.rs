//! A stand-alone 64x32 screen whose pixels are flipped one at a time.

use crate::emulator::{signed_pixel_in_range, wrap_col_i8, wrap_row_i8};
use crate::frame::{blank_frame, frame_text, grid_set, grid_view, grids_equal, is_frame, render_grid};
use vstd::prelude::*;

verus! {

/// A screen of 32 rows of 64 pixels, with a cache of its last text rendering.
#[derive(Debug)]
pub struct ACScreen {
    pixels: [[bool; 64]; 32],
    last_pixels: Option<[[bool; 64]; 32]>,
    last_render: Option<String>,
}

impl View for ACScreen {
    type V = Seq<Seq<bool>>;

    closed spec fn view(&self) -> Seq<Seq<bool>> {
        grid_view(self.pixels)
    }
}

impl ACScreen {
    #[verifier::type_invariant]
    spec fn cache_agrees(&self) -> bool {
        self.last_pixels matches Some(p) ==> (self.last_render matches Some(s) && s@ == frame_text(
            grid_view(p),
        ))
    }

    /// The view is always a frame of 32 rows of 64 pixels.
    pub proof fn lemma_view_is_frame(&self)
        ensures
            is_frame(self@),
    {
    }

    /// Creates a new screen with all pixels off.
    pub fn new() -> (r: Self)
        ensures
            r@ == blank_frame(),
    {
        let r = Self { pixels: [[false; 64]; 32], last_pixels: None, last_render: None };
        assert(r@ =~= blank_frame()) by {
            assert forall|i: int| 0 <= i < 32 implies r@[i] =~= blank_frame()[i] by {}
        }
        r
    }

    /// Inverts the pixel at `(x, y)`; coordinates wrap once in either
    /// direction. Returns whether the pixel was on, that is, whether it was erased.
    pub fn flip_pixel(&mut self, x: i8, y: i8) -> (erased: bool)
        requires
            signed_pixel_in_range(x, y),
        ensures
            final(self)@ == grid_set(
                old(self)@,
                wrap_row_i8(y),
                wrap_col_i8(x),
                !old(self)@[wrap_row_i8(y)][wrap_col_i8(x)],
            ),
            erased == old(self)@[wrap_row_i8(y)][wrap_col_i8(x)],
    {
        proof {
            use_type_invariant(&*self);
        }
        let mut x = x;
        let mut y = y;
        if x >= 64 {
            x -= 64;
        } else if x < 0 {
            x += 64;
        }
        if y > 32 {
            y -= 32;
        } else if y < 0 {
            y += 32;
        }
        let row: usize = y as usize;
        let col: usize = x as usize;
        let cur: bool = self.pixels[row][col];
        self.pixels[row][col] = !cur;
        proof {
            assert(self@ =~= grid_set(old(self)@, row as int, col as int, !cur)) by {
                assert forall|i: int| 0 <= i < 32 implies self@[i] =~= grid_set(
                    old(self)@,
                    row as int,
                    col as int,
                    !cur,
                )[i] by {}
            }
        }
        !self.pixels[row][col]
    }

    /// Turns every pixel off.
    pub fn clear(&mut self)
        ensures
            final(self)@ == blank_frame(),
    {
        proof {
            use_type_invariant(&*self);
        }
        self.pixels = [[false; 64]; 32];
        assert(self@ =~= blank_frame()) by {
            assert forall|i: int| 0 <= i < 32 implies self@[i] =~= blank_frame()[i] by {}
        }
    }

    /// The text of the current frame (see [`frame_text`]); a frame equal to the
    /// last one rendered is answered from the cache.
    pub fn render(&mut self) -> (s: String)
        ensures
            s@ == frame_text(old(self)@),
            final(self)@ == old(self)@,
    {
        proof {
            use_type_invariant(&*self);
        }
        if let Some(last_pixels) = &self.last_pixels {
            if grids_equal(last_pixels, &self.pixels) {
                if let Some(last) = &self.last_render {
                    return last.clone();
                }
            }
        }
        let rendered = render_grid(&self.pixels);
        self.last_pixels = None;
        self.last_render = Some(rendered.clone());
        self.last_pixels = Some(self.pixels);
        rendered
    }
}

} // verus!
