use vstd::prelude::*;

verus! {

/// A rectangle of terminal cells.
#[derive(Clone, Copy, Debug, PartialEq, Eq, Structural)]
pub struct Area {
    pub x: u16,
    pub y: u16,
    pub width: u16,
    pub height: u16,
}

/// Full block, drawn for a fully lit cell.
pub const FULL_BLOCK: char = '\u{2588}';

/// Upper one-eighth block, the mirror image of the lower one-eighth block.
pub const UPPER_EIGHTH: char = '\u{2594}';

/// Lower partial blocks by eighths: blank, then one to eight eighths.
pub const EIGHTHS: [char; 9] = [
    ' ',
    '\u{2581}',
    '\u{2582}',
    '\u{2583}',
    '\u{2584}',
    '\u{2585}',
    '\u{2586}',
    '\u{2587}',
    '\u{2588}',
];

/// Bar width and gap for `n` bars across `width` cells: nothing for no bars,
/// one-cell bars without gaps when the bars do not fit, one-cell gaps when
/// every bar gets at least three cells, and otherwise the even share.
pub open spec fn bar_layout_spec(width: nat, n: nat) -> (nat, nat) {
    if n == 0 {
        (0, 0)
    } else if n >= width {
        (1, 0)
    } else if width / n >= 3 && n > 1 {
        let w = ((width - (n - 1)) as nat) / n;
        (if w >= 1 { w } else { 1 }, 1)
    } else {
        let per = width / n;
        (if per >= 1 { per } else { 1 }, 0)
    }
}

/// Width taken by `n` bars of `bar_w` cells with `gap` cells between them.
pub open spec fn bars_total_width(n: nat, bar_w: nat, gap: nat) -> nat {
    n * bar_w + (if n >= 1 { (n - 1) as nat } else { 0 }) * gap
}

/// Bar width and gap between bars for `n` bars across `width` cells.
pub fn bar_layout(width: usize, n: usize) -> (r: (usize, usize))
    ensures
        (r.0 as nat, r.1 as nat) == bar_layout_spec(width as nat, n as nat),
{
    if n == 0 {
        return (0, 0);
    }
    if n >= width {
        return (1, 0);
    }
    let per = width / n;
    if per >= 3 && n > 1 {
        let gap: usize = 1;
        let bar_w = (width - (n - 1) * gap) / n;
        (if bar_w >= 1 { bar_w } else { 1 }, gap)
    } else {
        (if per >= 1 { per } else { 1 }, 0)
    }
}

/// Bars that each get at least three cells are separated by one-cell gaps,
/// and take the widest bar width that still fits: one more cell per bar would
/// overflow the width.  Bars that get fewer cells touch and take the even share.
pub proof fn lemma_bar_gaps(width: nat, n: nat)
    requires
        2 <= n,
        n < width,
    ensures
        width >= 3 * n ==> {
            let (w, g) = bar_layout_spec(width, n);
            &&& g == 1
            &&& n * w + (n - 1) <= width
            &&& n * (w + 1) + (n - 1) > width
        },
        width < 3 * n ==> {
            let (w, g) = bar_layout_spec(width, n);
            &&& g == 0
            &&& n * w <= width
            &&& n * (w + 1) > width
        },
{
    let per = width / n;
    if width >= 3 * n {
        assert(per >= 3) by (nonlinear_arith)
            requires
                per == width / n,
                width >= 3 * n,
                n >= 1,
        ;
        let m = (width - (n - 1)) as nat;
        let w = m / n;
        assert(n * w <= m && n * (w + 1) > m) by (nonlinear_arith)
            requires
                w == m / n,
                n >= 1,
        ;
        assert(w >= 1) by (nonlinear_arith)
            requires
                w == m / n,
                m >= n,
                n >= 1,
        ;
    } else {
        assert(per < 3) by (nonlinear_arith)
            requires
                per == width / n,
                width < 3 * n,
                n >= 1,
        ;
        assert(n * per <= width && n * (per + 1) > width) by (nonlinear_arith)
            requires
                per == width / n,
                n >= 1,
        ;
        assert(per >= 1) by (nonlinear_arith)
            requires
                per == width / n,
                n < width,
                n >= 1,
        ;
    }
}

/// The mirror image of a glyph is the glyph itself, except that the lowest
/// eighth turns into the highest eighth.
pub proof fn lemma_mirror_up_keeps_glyphs(ch: char)
    ensures
        ch != '\u{2581}' ==> mirror_up_spec(ch) == ch,
        mirror_up_spec('\u{2581}') == '\u{2594}',
        mirror_up_spec(ch) != ' ' <== ch != ' ',
{
}

/// The cell that holds a plain bar's top shows the eighths left over above
/// its full cells; a blocky bar's top cell is full when lit and blank when not.
pub proof fn lemma_bar_top_cell(total_eighths: nat, lit: bool)
    ensures
        total_eighths % 8 > 0 ==> bar_cell_spec(total_eighths / 8, total_eighths, false, lit)
            == EIGHTHS[(total_eighths % 8) as int],
        total_eighths % 8 == 0 ==> bar_cell_spec(total_eighths / 8, total_eighths, false, lit)
            == ' ',
        lit ==> bar_cell_spec(total_eighths / 8, total_eighths, true, true) == FULL_BLOCK,
        bar_cell_spec(total_eighths / 8, total_eighths, true, false) == ' ',
{
}

/// The bars are centred: the spare cells left of them are half the spare
/// cells (rounded down), so the left margin is never wider than the right one
/// and at most one cell narrower.
pub proof fn lemma_bars_centred(area_x: nat, width: nat, n: nat)
    requires
        0 < n < width,
    ensures
        ({
            let (w, g) = bar_layout_spec(width, n);
            let total = bars_total_width(n, w, g);
            let left = bars_start_x_spec(area_x, width, n, w, g) - area_x;
            let right = width - total - left;
            &&& 0 <= left <= right <= left + 1
        }),
{
    lemma_bars_fit(width, n);
}

/// The bars-over-waveform split stacks its two parts exactly: same columns,
/// the strip right under the bars, heights adding up, and the strip a third
/// of the height but at least three rows.
pub proof fn lemma_bars_wave_stack(area: Area, bars: Area, wave: Area)
    requires
        area.height >= 4,
        area.y + area.height <= u16::MAX,
        Some((bars, wave)) == ({
            let wave_h: u16 = if area.height / 3 >= 3 { area.height / 3 } else { 3 };
            Some(
                (
                    Area { x: area.x, y: area.y, width: area.width, height: (area.height - wave_h) as u16 },
                    Area {
                        x: area.x,
                        y: (area.y + area.height - wave_h) as u16,
                        width: area.width,
                        height: wave_h,
                    },
                ),
            )
        }),
    ensures
        bars.x == area.x && wave.x == area.x && bars.width == area.width && wave.width == area.width,
        bars.y == area.y,
        wave.y == bars.y + bars.height,
        bars.height + wave.height == area.height,
        wave.height >= 3,
        wave.height >= area.height / 3,
        bars.height >= 1,
{
}

/// The bars always fit: with fewer bars than cells, each bar is at least one
/// cell wide and all bars with their gaps take no more than the width.
pub proof fn lemma_bars_fit(width: nat, n: nat)
    requires
        0 < n < width,
    ensures
        bar_layout_spec(width, n).0 >= 1,
        bars_total_width(n, bar_layout_spec(width, n).0, bar_layout_spec(width, n).1) <= width,
{
    let per = width / n;
    assert(n * per <= width) by (nonlinear_arith)
        requires
            per == width / n,
            n > 0,
    ;
    if per >= 3 && n > 1 {
        let m = (width - (n - 1)) as nat;
        let w = m / n;
        assert(n * 3 <= width) by (nonlinear_arith)
            requires
                per == width / n,
                n > 0,
                per >= 3,
        ;
        assert(m >= n);
        assert(w >= 1 && n * w <= m) by (nonlinear_arith)
            requires
                w == m / n,
                m >= n,
                n > 0,
        ;
        assert(((n - 1) as nat) * 1nat == n - 1);
    } else {
        assert(per >= 1) by (nonlinear_arith)
            requires
                per == width / n,
                n < width,
                n > 0,
        ;
        assert(((n - 1) as nat) * 0nat == 0);
    }
}

/// Left edge of a row of bars, centred in an area whose left edge is `area_x`.
pub open spec fn bars_start_x_spec(area_x: nat, width: nat, n: nat, bar_w: nat, gap: nat) -> nat {
    let total = bars_total_width(n, bar_w, gap);
    area_x + ((width - (if total <= width { total } else { width })) as nat) / 2
}

/// Left edge of the `n` bars laid out by `bar_layout(width, n)`, centred in
/// the area that starts at `area_x` and is `width` cells wide.
pub fn bars_start_x(area_x: u16, width: usize, n: usize, bar_w: usize, gap: usize) -> (r: u16)
    requires
        (bar_w as nat, gap as nat) == bar_layout_spec(width as nat, n as nat),
        width <= u16::MAX,
        bars_start_x_spec(area_x as nat, width as nat, n as nat, bar_w as nat, gap as nat)
            <= u16::MAX,
    ensures
        r == bars_start_x_spec(area_x as nat, width as nat, n as nat, bar_w as nat, gap as nat),
{
    let total: usize;
    if n == 0 {
        total = 0;
        assert(0nat * 0nat == 0);
    } else if n >= width {
        assert(((n - 1) as nat) * 0nat == 0);
        assert((n as nat) * 1nat == n);
        total = n;
    } else {
        proof {
            lemma_bars_fit(width as nat, n as nat);
            assert((n - 1) * gap <= n * bar_w + (n - 1) * gap) by (nonlinear_arith)
                requires
                    bar_w >= 1,
                    n >= 1,
            ;
        }
        total = n * bar_w + (n - 1) * gap;
    }
    assert(total == bars_total_width(n as nat, bar_w as nat, gap as nat));
    let shown = if total <= width { total } else { width };
    area_x + ((width - shown) / 2) as u16
}

/// The glyph of one cell of a bar: `total_eighths` eighths of cells are lit
/// from the bottom; `row` counts from the bottom.  Plain bars draw the partial
/// top cell by eighths; blocky bars light it fully when `lit`.
pub open spec fn bar_cell_spec(row: nat, total_eighths: nat, blocky: bool, lit: bool) -> char {
    let full = total_eighths / 8;
    let rem = total_eighths % 8;
    if row < full {
        FULL_BLOCK
    } else if row == full && rem > 0 && !blocky {
        EIGHTHS[rem as int]
    } else if row == full && blocky && lit {
        FULL_BLOCK
    } else {
        ' '
    }
}

/// The glyph of the cell `row` cells above the bottom of a bar that is lit
/// for `total_eighths` eighths of cells.
pub fn bar_cell(row: usize, total_eighths: usize, blocky: bool, lit: bool) -> (r: char)
    ensures
        r == bar_cell_spec(row as nat, total_eighths as nat, blocky, lit),
{
    let full = total_eighths / 8;
    let rem = total_eighths % 8;
    if row < full {
        FULL_BLOCK
    } else if row == full && rem > 0 && !blocky {
        EIGHTHS[rem]
    } else if row == full && blocky && lit {
        FULL_BLOCK
    } else {
        ' '
    }
}

/// The glyph of the cell `row` cells away from the centre line of a mirrored
/// bar, on its lower half.
pub fn mirror_cell(row: usize, total_eighths: usize) -> (r: char)
    ensures
        r == bar_cell_spec(row as nat, total_eighths as nat, false, false),
{
    let full = total_eighths / 8;
    let rem = total_eighths % 8;
    if row < full {
        FULL_BLOCK
    } else if row == full && rem > 0 {
        EIGHTHS[rem]
    } else {
        ' '
    }
}

/// The glyph drawn on the upper half of a mirrored bar for a lower-half glyph:
/// the lowest eighth becomes the highest eighth, the others stay.
pub open spec fn mirror_up_spec(ch: char) -> char {
    if ch == EIGHTHS[1] {
        UPPER_EIGHTH
    } else {
        ch
    }
}

/// The glyph drawn on the upper half of a mirrored bar for a lower-half glyph.
pub fn mirror_up(ch: char) -> (r: char)
    ensures
        r == mirror_up_spec(ch),
{
    if ch == EIGHTHS[1] {
        UPPER_EIGHTH
    } else {
        ch
    }
}

/// A bar is drawn solid up to its lit height, and nothing is drawn above the
/// cell that holds its top.
pub proof fn lemma_bar_cells(row: nat, total_eighths: nat, blocky: bool, lit: bool)
    ensures
        row * 8 + 8 <= total_eighths ==> bar_cell_spec(row, total_eighths, blocky, lit)
            == FULL_BLOCK,
        row > total_eighths / 8 ==> bar_cell_spec(row, total_eighths, blocky, lit) == ' ',
{
    if row * 8 + 8 <= total_eighths {
        assert(row < total_eighths / 8) by (nonlinear_arith)
            requires
                row * 8 + 8 <= total_eighths,
        ;
    }
}

/// Whether `k` lies strictly between `a` and `b`, in either order.
pub open spec fn strictly_between(k: int, a: int, b: int) -> bool {
    a < k < b || b < k < a
}

/// The rows of the connecting line that the waveform draws between a
/// column's row and the previous column's: strictly between the two.
pub fn connector_rows(prev: usize, row: usize) -> (r: (usize, usize))
    requires
        prev < usize::MAX,
        row < usize::MAX,
    ensures
        prev < row ==> r.0 == prev + 1 && r.1 == row,
        prev >= row ==> r.0 == row + 1 && r.1 == prev,
        forall|k: int| r.0 <= k < r.1 <==> #[trigger] strictly_between(k, prev as int, row as int),
{
    if prev < row {
        (prev + 1, row)
    } else {
        (row + 1, prev)
    }
}

/// Splits an area into spectrum bars above and a waveform strip below, the
/// strip taking a third of the height and at least three rows; `None` for
/// areas under four rows, which show bars alone.
pub fn split_bars_wave(area: Area) -> (r: Option<(Area, Area)>)
    requires
        area.height >= 4 ==> area.y + area.height <= u16::MAX,
    ensures
        area.height < 4 ==> r is None,
        area.height >= 4 ==> r == Some(
            {
                let wave_h: u16 = if area.height / 3 >= 3 {
                    area.height / 3
                } else {
                    3
                };
                (
                    Area {
                        x: area.x,
                        y: area.y,
                        width: area.width,
                        height: (area.height - wave_h) as u16,
                    },
                    Area {
                        x: area.x,
                        y: (area.y + area.height - wave_h) as u16,
                        width: area.width,
                        height: wave_h,
                    },
                )
            },
        ),
{
    if area.height < 4 {
        return None;
    }
    let third = area.height / 3;
    let wave_h = if third >= 3 { third } else { 3 };
    let bars_area = Area { x: area.x, y: area.y, width: area.width, height: area.height - wave_h };
    let wave_area = Area {
        x: area.x,
        y: area.y + area.height - wave_h,
        width: area.width,
        height: wave_h,
    };
    Some((bars_area, wave_area))
}

} // verus!
