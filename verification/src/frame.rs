//! The 64x32 monochrome frame: its mathematical view and its text form.
//!
//! A frame is stored as 32 rows of 64 pixels. The text form shows the
//! rows last-stored first, each pixel as two block characters coloured
//! through `owo_colors`, rows separated by newlines.

use crate::ansi::{bg_rgb_string, bg_rgb_text, fg_rgb_string, fg_rgb_text};
use vstd::prelude::*;

verus! {

/// The glyph drawn for one pixel.
pub const PIXEL: &'static str = "██";

/// The characters of [`PIXEL`].
pub open spec fn pixel_glyph() -> Seq<char> {
    seq!['█', '█']
}

/// A sequence of 32 rows of 64 pixels each.
pub open spec fn is_frame(g: Seq<Seq<bool>>) -> bool {
    &&& g.len() == 32
    &&& forall|r: int| 0 <= r < 32 ==> (#[trigger] g[r]).len() == 64
}

/// The rows of a stored frame as sequences.
pub open spec fn grid_view(p: [[bool; 64]; 32]) -> Seq<Seq<bool>> {
    Seq::new(32, |r: int| p@[r]@)
}

/// The frame `g` with pixel `(row, col)` set to `v`.
pub open spec fn grid_set(g: Seq<Seq<bool>>, row: int, col: int, v: bool) -> Seq<Seq<bool>> {
    g.update(row, g[row].update(col, v))
}

/// The frame with every pixel off.
pub open spec fn blank_frame() -> Seq<Seq<bool>> {
    Seq::new(32, |r: int| Seq::new(64, |c: int| false))
}

/// The text of a lit pixel: green on black.
pub open spec fn lit_cell_text() -> Seq<char> {
    bg_rgb_text(fg_rgb_text(pixel_glyph(), 105, 237, 44), 0, 0, 0)
}

/// The text of a dark pixel: black on black.
pub open spec fn dark_cell_text() -> Seq<char> {
    fg_rgb_text(bg_rgb_text(pixel_glyph(), 0, 0, 0), 0, 0, 0)
}

pub open spec fn cell_text(on: bool) -> Seq<char> {
    if on {
        lit_cell_text()
    } else {
        dark_cell_text()
    }
}

/// The text of one row: its cells, left to right.
pub open spec fn row_text(row: Seq<bool>) -> Seq<char>
    decreases row.len(),
{
    if row.len() == 0 {
        seq![]
    } else {
        row_text(row.drop_last()) + cell_text(row.last())
    }
}

/// The separator written before line `k` of the text: none before the first.
pub open spec fn line_sep(k: nat) -> Seq<char> {
    if k == 0 {
        seq![]
    } else {
        seq!['\n']
    }
}

/// The first `n` lines of the text of `rows`; line `k` shows row `rows.len() - 1 - k`.
pub open spec fn frame_lines(rows: Seq<Seq<bool>>, n: nat) -> Seq<char>
    decreases n,
{
    if n == 0 {
        seq![]
    } else {
        frame_lines(rows, (n - 1) as nat) + line_sep((n - 1) as nat) + row_text(
            rows[rows.len() - n],
        )
    }
}

/// The whole text of a frame.
pub open spec fn frame_text(rows: Seq<Seq<bool>>) -> Seq<char> {
    frame_lines(rows, rows.len())
}

/// The pixel shown at position `p` when the frame is read out last row first,
/// each row left to right.
pub open spec fn pixel_in_scan_order(rows: Seq<Seq<bool>>, p: int) -> bool {
    rows[31 - p / 64][p % 64]
}

/// Whether two stored frames hold the same pixels.
pub fn grids_equal(a: &[[bool; 64]; 32], b: &[[bool; 64]; 32]) -> (eq: bool)
    ensures
        eq == (grid_view(*a) == grid_view(*b)),
{
    let mut r: usize = 0;
    while r < 32
        invariant
            r <= 32,
            forall|i: int, j: int| 0 <= i < r && 0 <= j < 64 ==> a@[i]@[j] == b@[i]@[j],
        decreases 32 - r,
    {
        let ra: [bool; 64] = a[r];
        let rb: [bool; 64] = b[r];
        let mut c: usize = 0;
        while c < 64
            invariant
                r < 32,
                c <= 64,
                ra@ == a@[r as int]@,
                rb@ == b@[r as int]@,
                forall|i: int, j: int| 0 <= i < r && 0 <= j < 64 ==> a@[i]@[j] == b@[i]@[j],
                forall|j: int| 0 <= j < c ==> a@[r as int]@[j] == b@[r as int]@[j],
            decreases 64 - c,
        {
            if ra[c] != rb[c] {
                assert(grid_view(*a)[r as int][c as int] != grid_view(*b)[r as int][c as int]);
                return false;
            }
            c += 1;
        }
        r += 1;
    }
    assert forall|i: int| 0 <= i < 32 implies grid_view(*a)[i] =~= grid_view(*b)[i] by {}
    assert(grid_view(*a) =~= grid_view(*b));
    true
}

/// Writes the text of the frame `p`.
pub fn render_grid(p: &[[bool; 64]; 32]) -> (s: String)
    ensures
        s@ == frame_text(grid_view(*p)),
{
    proof {
        reveal_strlit("██");
    }
    let ghost rows = grid_view(*p);
    let px_off = fg_rgb_string::<0, 0, 0>(bg_rgb_string::<0, 0, 0>(PIXEL).as_str());
    let px_on = bg_rgb_string::<0, 0, 0>(fg_rgb_string::<105, 237, 44>(PIXEL).as_str());
    let mut rendered = String::new();
    let mut k: usize = 0;
    while k < 32
        invariant
            k <= 32,
            rows == grid_view(*p),
            px_on@ == lit_cell_text(),
            px_off@ == dark_cell_text(),
            rendered@ == frame_lines(rows, k as nat),
        decreases 32 - k,
    {
        let row: [bool; 64] = p[31 - k];
        if k > 0 {
            let sep: &str = "\n";
            proof {
                reveal_strlit("\n");
            }
            assert(sep@ =~= seq!['\n']);
            rendered.append(sep);
        }
        let ghost base = rendered@;
        assert(base == frame_lines(rows, k as nat) + line_sep(k as nat));
        let mut c: usize = 0;
        while c < 64
            invariant
                k < 32,
                c <= 64,
                px_on@ == lit_cell_text(),
                px_off@ == dark_cell_text(),
                rendered@ == base + row_text(row@.take(c as int)),
            decreases 64 - c,
        {
            if row[c] {
                rendered.append(px_on.as_str());
            } else {
                rendered.append(px_off.as_str());
            }
            assert(row@.take(c + 1).drop_last() =~= row@.take(c as int));
            c += 1;
        }
        assert(row@.take(64) =~= row@);
        assert(rows[rows.len() - (k + 1)] == row@);
        k += 1;
    }
    rendered
}

} // verus!
