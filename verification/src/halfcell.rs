use vstd::prelude::*;
use crate::layout::Area;

verus! {

/// Upper half block.
pub const UPPER_HALF: char = '\u{2580}';

/// Lower half block.
pub const LOWER_HALF: char = '\u{2584}';

/// Full block.
pub const FULL: char = '\u{2588}';

/// A 24-bit colour.
#[derive(Clone, Copy, Debug, PartialEq, Eq, Structural)]
pub struct Rgb {
    pub r: u8,
    pub g: u8,
    pub b: u8,
}

/// What to draw into one terminal cell: a glyph, its foreground colour and,
/// when the two halves differ, a background colour.
#[derive(Clone, Copy, Debug, PartialEq, Eq, Structural)]
pub struct HalfMark {
    pub ch: char,
    pub fg: Rgb,
    pub bg: Option<Rgb>,
}

/// One terminal cell of a half-cell raster, at absolute coordinates; `mark`
/// is `None` where neither half was plotted and the cell is left untouched.
#[derive(Clone, Copy, Debug, PartialEq, Eq, Structural)]
pub struct CellPaint {
    pub x: u16,
    pub y: u16,
    pub mark: Option<HalfMark>,
}

/// How a cell shows its two halves: one plotted half as that half block, two
/// equal halves as a full block, two different halves as an upper half block
/// on the lower half's colour.
pub open spec fn mark_of(u: Option<Rgb>, l: Option<Rgb>) -> Option<HalfMark> {
    match (u, l) {
        (None, None) => None,
        (Some(c), None) => Some(HalfMark { ch: UPPER_HALF, fg: c, bg: None }),
        (None, Some(c)) => Some(HalfMark { ch: LOWER_HALF, fg: c, bg: None }),
        (Some(a), Some(b)) => if a == b {
            Some(HalfMark { ch: FULL, fg: a, bg: None })
        } else {
            Some(HalfMark { ch: UPPER_HALF, fg: a, bg: Some(b) })
        },
    }
}

/// Whether an area can be rasterised without leaving the `u16` coordinate
/// range: twice its height, its cell count and its far edges all fit.
pub open spec fn area_fits(area: Area) -> bool {
    &&& area.height * 2 <= u16::MAX
    &&& area.width * area.height <= 0x1_0000
    &&& area.x + area.width <= 0x1_0000
    &&& area.y + area.height <= 0x1_0000
}

/// Whether `HalfCell::new` accepts `area`.
pub fn raster_fits(area: Area) -> (r: bool)
    ensures
        r == area_fits(area),
{
    let w = area.width as u64;
    let h = area.height as u64;
    proof {
        assert(w * h <= 0xffff * 0xffff) by (nonlinear_arith)
            requires
                w <= 0xffff,
                h <= 0xffff,
        ;
    }
    h * 2 <= 0xffff && w * h <= 0x1_0000 && area.x as u64 + w <= 0x1_0000 && area.y as u64 + h
        <= 0x1_0000
}

/// Where a plot at column `x` and half-row `subrow` lands: `Some((i, upper))`
/// for cell index `i` and its upper or lower half, `None` outside the area.
/// Coordinates are taken modulo 2^16 once they are known to be nonnegative.
pub open spec fn plot_target(area: Area, x: i32, subrow: i32) -> Option<(int, bool)> {
    if x < 0 || subrow < 0 {
        None
    } else {
        let cx = x as u16;
        let cs = subrow as u16;
        if cx >= area.width || cs >= area.height * 2 {
            None
        } else {
            Some((cx + (cs / 2) * area.width, cs % 2 == 0))
        }
    }
}

/// A raster of twice the vertical resolution of the terminal: every cell has
/// an upper and a lower half that can each hold a colour.
pub struct HalfCell {
    area: Area,
    up: Vec<Option<Rgb>>,
    lo: Vec<Option<Rgb>>,
}

impl HalfCell {
    /// The raster covers an area that fits the coordinate range, with one
    /// upper and one lower half per cell.
    pub open spec fn wf(&self) -> bool {
        &&& area_fits(self.area())
        &&& self.upper().len() == self.area().width * self.area().height
        &&& self.lower().len() == self.area().width * self.area().height
    }

    /// The area the raster covers.
    pub closed spec fn area(&self) -> Area {
        self.area
    }

    /// Colours of the upper halves, row by row.
    pub closed spec fn upper(&self) -> Seq<Option<Rgb>> {
        self.up@
    }

    /// Colours of the lower halves, row by row.
    pub closed spec fn lower(&self) -> Seq<Option<Rgb>> {
        self.lo@
    }

    /// What cell `i` of the raster paints.
    pub open spec fn paint_at(&self, i: int) -> CellPaint {
        let w = self.area().width as int;
        CellPaint {
            x: (self.area().x + i % w) as u16,
            y: (self.area().y + i / w) as u16,
            mark: mark_of(self.upper()[i], self.lower()[i]),
        }
    }

    /// An empty raster over `area`.
    pub fn new(area: Area) -> (r: Self)
        requires
            area_fits(area),
        ensures
            r.wf(),
            r.area() == area,
            r.upper() == Seq::new((area.width * area.height) as nat, |i: int| None::<Rgb>),
            r.lower() == Seq::new((area.width * area.height) as nat, |i: int| None::<Rgb>),
    {
        let n = area.width as usize * area.height as usize;
        let mut up: Vec<Option<Rgb>> = Vec::with_capacity(n);
        let mut lo: Vec<Option<Rgb>> = Vec::with_capacity(n);
        let mut i: usize = 0;
        while i < n
            invariant
                0 <= i <= n,
                up@ == Seq::new(i as nat, |j: int| None::<Rgb>),
                lo@ == Seq::new(i as nat, |j: int| None::<Rgb>),
            decreases n - i,
        {
            up.push(None);
            lo.push(None);
            i = i + 1;
            proof {
                assert(up@ =~= Seq::new(i as nat, |j: int| None::<Rgb>));
                assert(lo@ =~= Seq::new(i as nat, |j: int| None::<Rgb>));
            }
        }
        HalfCell { area, up, lo }
    }

    /// Colours the half-cell at column `x` and half-row `subrow` (two half-rows
    /// per terminal row); points outside the area are ignored.
    pub fn plot(&mut self, x: i32, subrow: i32, rgb: Rgb)
        requires
            old(self).wf(),
        ensures
            final(self).wf(),
            final(self).area() == old(self).area(),
            final(self).upper() == (match plot_target(old(self).area(), x, subrow) {
                Some((i, true)) => old(self).upper().update(i, Some(rgb)),
                _ => old(self).upper(),
            }),
            final(self).lower() == (match plot_target(old(self).area(), x, subrow) {
                Some((i, false)) => old(self).lower().update(i, Some(rgb)),
                _ => old(self).lower(),
            }),
    {
        if x < 0 || subrow < 0 {
            return;
        }
        let cx = x as u16;
        let cs = subrow as u16;
        if cx >= self.area.width || cs >= self.area.height * 2 {
            return;
        }
        let row = cs / 2;
        proof {
            let w = self.area.width as int;
            let h = self.area.height as int;
            assert(row < h);
            assert(row * w + cx < w * h) by (nonlinear_arith)
                requires
                    row < h,
                    cx < w,
                    0 <= row,
            ;
        }
        let idx = (cx + row * self.area.width) as usize;
        if cs % 2 == 0 {
            self.up.set(idx, Some(rgb));
        } else {
            self.lo.set(idx, Some(rgb));
        }
    }

    /// Every cell of the raster, row by row, with what it paints.
    pub fn cells(&self) -> (r: Vec<CellPaint>)
        requires
            self.wf(),
        ensures
            r@.len() == self.area().width * self.area().height,
            forall|i: int| 0 <= i < r@.len() ==> #[trigger] r@[i] == self.paint_at(i),
    {
        let w = self.area.width;
        let h = self.area.height;
        let mut r: Vec<CellPaint> = Vec::new();
        let mut row: u16 = 0;
        while row < h
            invariant
                w == self.area.width,
                h == self.area.height,
                area_fits(self.area),
                self.up@.len() == w * h,
                self.lo@.len() == w * h,
                0 <= row <= h,
                r@.len() == row * w,
                forall|i: int| 0 <= i < r@.len() ==> #[trigger] r@[i] == self.paint_at(i),
            decreases h - row,
        {
            let mut col: u16 = 0;
            while col < w
                invariant
                    w == self.area.width,
                    h == self.area.height,
                    area_fits(self.area),
                    self.up@.len() == w * h,
                    self.lo@.len() == w * h,
                    0 <= row < h,
                    0 <= col <= w,
                    r@.len() == row * w + col,
                    forall|i: int| 0 <= i < r@.len() ==> #[trigger] r@[i] == self.paint_at(i),
                decreases w - col,
            {
                proof {
                    assert(row * w + col < w * h) by (nonlinear_arith)
                        requires
                            row < h,
                            col < w,
                            0 <= row,
                    ;
                }
                let idx = (col + row * w) as usize;
                let u = self.up[idx];
                let l = self.lo[idx];
                let mark = match (u, l) {
                    (None, None) => None,
                    (Some(c), None) => Some(HalfMark { ch: UPPER_HALF, fg: c, bg: None }),
                    (None, Some(c)) => Some(HalfMark { ch: LOWER_HALF, fg: c, bg: None }),
                    (Some(a), Some(b)) => {
                        if a.r == b.r && a.g == b.g && a.b == b.b {
                            Some(HalfMark { ch: FULL, fg: a, bg: None })
                        } else {
                            Some(HalfMark { ch: UPPER_HALF, fg: a, bg: Some(b) })
                        }
                    },
                };
                let paint = CellPaint { x: self.area.x + col, y: self.area.y + row, mark };
                proof {
                    let i = idx as int;
                    assert(i == row * w + col);
                    vstd::arithmetic::div_mod::lemma_fundamental_div_mod_converse(
                        i,
                        w as int,
                        row as int,
                        col as int,
                    );
                    assert(paint == self.paint_at(i));
                }
                r.push(paint);
                col = col + 1;
            }
            proof {
                assert((row + 1) * w == row * w + w) by (nonlinear_arith);
            }
            row = row + 1;
        }
        proof {
            assert(h * w == w * h) by (nonlinear_arith);
        }
        r
    }
}

/// A plot that lands does so in the cell at column `x` and row `subrow / 2`
/// of the area, in its upper half for even half-rows.
pub proof fn lemma_plot_target_cell(area: Area, x: i32, subrow: i32)
    requires
        area_fits(area),
    ensures
        plot_target(area, x, subrow) matches Some((i, upper)) ==> {
            &&& 0 <= i < area.width * area.height
            &&& i % (area.width as int) == (x as u16)
            &&& i / (area.width as int) == (subrow as u16) / 2
            &&& upper == ((subrow as u16) % 2 == 0)
        },
        0 <= x < area.width && 0 <= subrow < area.height * 2 ==> (x as u16) == x && (subrow as u16)
            == subrow && plot_target(area, x, subrow) is Some,
{
    if let Some((i, upper)) = plot_target(area, x, subrow) {
        let w = area.width as int;
        let h = area.height as int;
        let cx = x as u16;
        let cs = subrow as u16;
        let row = (cs / 2) as int;
        assert(row < h);
        assert(row * w + cx < w * h) by (nonlinear_arith)
            requires
                row < h,
                cx < w,
                0 <= row,
        ;
        assert(i == row * w + cx);
        vstd::arithmetic::div_mod::lemma_fundamental_div_mod_converse(i, w, row, cx as int);
    }
    if 0 <= x < area.width && 0 <= subrow < area.height * 2 {
        assert((x as u16) == x) by (bit_vector)
            requires
                0 <= x < 0x1_0000,
        ;
        assert((subrow as u16) == subrow) by (bit_vector)
            requires
                0 <= subrow < 0x1_0000,
        ;
    }
}

/// The colour plotted into a half always shows: an upper half's colour is the
/// cell's foreground, a lower half's colour its foreground or background, and
/// a cell with no plotted half is not drawn.
pub proof fn lemma_mark_shows_halves(u: Option<Rgb>, l: Option<Rgb>)
    ensures
        u matches Some(c) ==> mark_of(u, l) matches Some(m) && m.fg == c,
        l matches Some(c) ==> mark_of(u, l) matches Some(m) && (m.fg == c || m.bg == Some(c)),
        (mark_of(u, l) is None) == (u is None && l is None),
{
}

} // verus!
