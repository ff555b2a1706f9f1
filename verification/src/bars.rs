use vstd::prelude::*;
use crate::layout::{
    Area, bar_cell, bar_cell_spec, bar_layout, bar_layout_spec, bars_start_x, bars_start_x_spec,
    mirror_cell, mirror_up, mirror_up_spec,
};

verus! {

/// Mark drawn at a bar's peak.
pub const PEAK_MARK: char = '\u{2580}';

/// One cell that a bar style paints: its position, its glyph, and the row
/// (counted from the bar's foot) whose colour it takes.
#[derive(Clone, Copy, Debug, PartialEq, Eq, Structural)]
pub struct BarPaint {
    pub x: u16,
    pub y: u16,
    pub ch: char,
    pub row: usize,
}

/// The three bar styles: plain bars with partial tops, blocky bars, and bars
/// mirrored about the centre line.
#[derive(Clone, Copy, Debug, PartialEq, Eq, Structural)]
pub enum BarKind {
    Plain,
    Blocky,
    Mirrored,
}

/// Each bar's level: lit eighths of a cell, peak row (counted from 1 at the
/// foot; 0 for none) and whether the level is high enough to light a blocky top.
pub open spec fn levels(
    eighths: Seq<usize>,
    peak_rows: Seq<usize>,
    lit: Seq<bool>,
    mirrored: bool,
) -> Seq<(nat, nat, bool)> {
    Seq::new(
        eighths.len(),
        |i: int|
            (
                eighths[i] as nat,
                if mirrored { 0nat } else { peak_rows[i] as nat },
                if mirrored { false } else { lit[i] },
            ),
    )
}

/// Whether a paint lies inside the area.
pub open spec fn inside(area: Area, p: BarPaint) -> bool {
    &&& area.x <= p.x < area.x + area.width
    &&& area.y <= p.y < area.y + area.height
}

/// Where a paint of a bar style sits for its row: a plain or blocky bar's
/// row `r` is `r` cells above the bottom row, and its peak mark for peak row
/// `p` (from 1) is `p` cells up from below the area; a mirrored bar's row `r`
/// is `r` cells below the centre line or `r` cells above the row over it.
pub open spec fn placed(area: Area, kind: BarKind, p: BarPaint) -> bool {
    if kind == BarKind::Mirrored {
        &&& p.row < area.height / 2
        &&& (p.y == centre(area) + p.row || p.y == centre(area) - 1 - p.row)
    } else if p.ch == PEAK_MARK {
        &&& 0 < p.row <= area.height
        &&& p.y == area.y + area.height - p.row
    } else {
        &&& p.row < area.height
        &&& p.y == area.y + area.height - 1 - p.row
    }
}

/// Whether every paint lies inside the area, draws a non-blank glyph, and
/// sits where its row puts it.
pub open spec fn all_drawn(area: Area, kind: BarKind, s: Seq<BarPaint>) -> bool {
    forall|k: int|
        0 <= k < s.len() ==> inside(area, #[trigger] s[k]) && s[k].ch != ' ' && placed(area, kind, s[k])
}

/// The centre line of a mirrored area: the first row of its lower half.
pub open spec fn centre(area: Area) -> int {
    area.y + area.height / 2
}

/// The paint on the upper half that mirrors a paint on the lower half.
pub open spec fn mirrored(area: Area, p: BarPaint) -> BarPaint {
    BarPaint { x: p.x, y: (2 * centre(area) - 1 - p.y) as u16, ch: mirror_up_spec(p.ch), row: p.row }
}

/// The paints come in pairs: a paint on the lower half (within `height / 2`
/// rows of the centre line), then its mirror image.
pub open spec fn paired(area: Area, s: Seq<BarPaint>) -> bool {
    &&& s.len() % 2 == 0
    &&& forall|k: int|
        0 <= k < s.len() && k % 2 == 0 ==> centre(area) <= (#[trigger] s[k]).y < centre(area)
            + area.height / 2 && s[k + 1] == mirrored(area, s[k])
}

/// The body of a plain or blocky bar column at `x`, from bar row `row` upwards:
/// every non-blank glyph, with row 0 at the bottom of the area.
pub open spec fn body_from(area: Area, x: int, e: nat, lit: bool, blocky: bool, row: nat) -> Seq<
    BarPaint,
>
    decreases area.height - row,
{
    if row >= area.height {
        Seq::empty()
    } else {
        let ch = bar_cell_spec(row, e, blocky, lit);
        let here = if ch != ' ' {
            seq![
                BarPaint {
                    x: x as u16,
                    y: (area.y + area.height - 1 - row) as u16,
                    ch,
                    row: row as usize,
                },
            ]
        } else {
            Seq::empty()
        };
        here + body_from(area, x, e, lit, blocky, row + 1)
    }
}

/// The peak mark of a bar column at `x`, drawn when the peak row is within the area.
pub open spec fn peak_paint(area: Area, x: int, peak: nat) -> Seq<BarPaint> {
    if 0 < peak <= area.height {
        seq![
            BarPaint {
                x: x as u16,
                y: (area.y + area.height - peak) as u16,
                ch: PEAK_MARK,
                row: peak as usize,
            },
        ]
    } else {
        Seq::empty()
    }
}

/// A mirrored bar column at `x`, from row `row` away from the centre line
/// outwards: for each non-blank glyph, the lower paint and then its mirror.
pub open spec fn mirror_from(area: Area, x: int, e: nat, row: nat) -> Seq<BarPaint>
    decreases area.height / 2 - row,
{
    let half = area.height / 2;
    if row >= half {
        Seq::empty()
    } else {
        let ch = bar_cell_spec(row, e, false, false);
        let down = BarPaint { x: x as u16, y: (area.y + half + row) as u16, ch, row: row as usize };
        let here = if ch != ' ' {
            seq![down, mirrored(area, down)]
        } else {
            Seq::empty()
        };
        here + mirror_from(area, x, e, row + 1)
    }
}

/// Everything one column at `x` of a bar paints.
pub open spec fn column_spec(area: Area, kind: BarKind, x: int, lv: (nat, nat, bool)) -> Seq<
    BarPaint,
> {
    match kind {
        BarKind::Plain => body_from(area, x, lv.0, lv.2, false, 0) + peak_paint(area, x, lv.1),
        BarKind::Blocky => body_from(area, x, lv.0, lv.2, true, 0) + peak_paint(area, x, lv.1),
        BarKind::Mirrored => mirror_from(area, x, lv.0, 0),
    }
}

/// The columns of a bar whose left edge is `bx`, from column `c` on, up to the
/// bar width or the right edge of the area, whichever comes first.
pub open spec fn columns_from(
    area: Area,
    kind: BarKind,
    bx: int,
    bar_w: nat,
    lv: (nat, nat, bool),
    c: nat,
) -> Seq<BarPaint>
    decreases bar_w - c,
{
    if c >= bar_w || bx + c >= area.x + area.width {
        Seq::empty()
    } else {
        column_spec(area, kind, bx + c, lv) + columns_from(area, kind, bx, bar_w, lv, c + 1)
    }
}

/// The bars from bar `i` on, left to right, stopping at the first bar that
/// starts at or beyond the right edge of the area.
pub open spec fn bars_from(
    area: Area,
    kind: BarKind,
    lvs: Seq<(nat, nat, bool)>,
    start: int,
    bar_w: nat,
    gap: nat,
    i: nat,
) -> Seq<BarPaint>
    decreases lvs.len() - i,
{
    if i >= lvs.len() || start + i * (bar_w + gap) >= area.x + area.width {
        Seq::empty()
    } else {
        columns_from(area, kind, start + i * (bar_w + gap), bar_w, lvs[i as int], 0) + bars_from(
            area,
            kind,
            lvs,
            start,
            bar_w,
            gap,
            i + 1,
        )
    }
}

/// Everything a bar style paints for bars at levels `lvs`: nothing on an
/// empty area or without bars (or, mirrored, under two rows); otherwise the
/// bars laid out by `bar_layout` and centred by `bars_start_x`.
pub open spec fn paints_spec(area: Area, kind: BarKind, lvs: Seq<(nat, nat, bool)>) -> Seq<
    BarPaint,
> {
    let n = lvs.len();
    let w = area.width as nat;
    let min_h: nat = if kind == BarKind::Mirrored { 2 } else { 1 };
    if area.height < min_h || n == 0 || w == 0 {
        Seq::empty()
    } else {
        let (bar_w, gap) = bar_layout_spec(w, n);
        bars_from(area, kind, lvs, bars_start_x_spec(area.x as nat, w, n, bar_w, gap) as int, bar_w, gap, 0)
    }
}

/// What the bars style (or, with `blocky`, the blocks style) paints.
pub open spec fn bar_paints_spec(
    area: Area,
    eighths: Seq<usize>,
    peak_rows: Seq<usize>,
    lit: Seq<bool>,
    blocky: bool,
) -> Seq<BarPaint> {
    paints_spec(
        area,
        if blocky { BarKind::Blocky } else { BarKind::Plain },
        levels(eighths, peak_rows, lit, false),
    )
}

/// What the mirror style paints.
pub open spec fn mirror_paints_spec(area: Area, eighths: Seq<usize>) -> Seq<BarPaint> {
    paints_spec(area, BarKind::Mirrored, levels(eighths, eighths, Seq::empty(), true))
}

/// Whether an area's right edge and bottom row fit the coordinate range.
pub open spec fn edges_fit(area: Area) -> bool {
    &&& area.x + area.width <= u16::MAX
    &&& area.y + area.height <= 0x1_0000
}

fn paint_column(
    r: &mut Vec<BarPaint>,
    area: Area,
    kind: BarKind,
    x: u16,
    e: usize,
    p: usize,
    l: bool,
)
    requires
        edges_fit(area),
        area.x <= x < area.x + area.width,
        all_drawn(area, kind, old(r)@),
        kind == BarKind::Mirrored ==> paired(area, old(r)@),
    ensures
        final(r)@ == old(r)@ + column_spec(area, kind, x as int, (e as nat, p as nat, l)),
        all_drawn(area, kind, final(r)@),
        kind == BarKind::Mirrored ==> paired(area, final(r)@),
{
    let ghost start = old(r)@;
    let h = area.height;
    if kind == BarKind::Mirrored {
        let half = h / 2;
        let mut row: u16 = 0;
        while row < half
            invariant
                edges_fit(area),
                h == area.height,
                half == area.height / 2,
                area.x <= x < area.x + area.width,
                0 <= row <= half,
                kind == BarKind::Mirrored,
                r@ + mirror_from(area, x as int, e as nat, row as nat) == start + mirror_from(
                    area,
                    x as int,
                    e as nat,
                    0,
                ),
                all_drawn(area, kind, r@),
                paired(area, r@),
            decreases half - row,
        {
            let ghost before = r@;
            let ghost rest = mirror_from(area, x as int, e as nat, (row + 1) as nat);
            let ch = mirror_cell(row as usize, e);
            if ch != ' ' {
                let down = BarPaint { x, y: area.y + half + row, ch, row: row as usize };
                let up = BarPaint { x, y: area.y + half - 1 - row, ch: mirror_up(ch), row: row as usize };
                proof {
                    assert(up == mirrored(area, down));
                }
                r.push(down);
                r.push(up);
                proof {
                    assert(r@ =~= before + seq![down, up]);
                    assert(r@ + rest =~= before + (seq![down, up] + rest));
                    assert forall|k: int| 0 <= k < r@.len() implies inside(area, #[trigger] r@[k]) && r@[k].ch != ' ' && placed(area, kind, r@[k]) by {
                        if k < before.len() {
                            assert(r@[k] == before[k]);
                        }
                    }
                    assert forall|k: int|
                        0 <= k < r@.len() && k % 2 == 0 implies centre(area) <= (
                        #[trigger] r@[k]).y < centre(area) + area.height / 2 && r@[k + 1]
                        == mirrored(area, r@[k]) by {
                        if k < before.len() {
                            assert(r@[k] == before[k]);
                            assert(r@[k + 1] == before[k + 1]);
                        } else {
                            assert(k == before.len());
                        }
                    }
                }
            } else {
                proof {
                    assert(before + rest =~= before + (Seq::<BarPaint>::empty() + rest));
                }
            }
            row = row + 1;
        }
        proof {
            assert(r@ =~= r@ + mirror_from(area, x as int, e as nat, row as nat));
        }
    } else {
        let blocky = kind == BarKind::Blocky;
        let hh = h as usize;
        let mut row: usize = 0;
        while row < hh
            invariant
                edges_fit(area),
                h == area.height,
                hh == h,
                area.x <= x < area.x + area.width,
                0 <= row <= hh,
                kind != BarKind::Mirrored,
                blocky == (kind == BarKind::Blocky),
                r@ + body_from(area, x as int, e as nat, l, blocky, row as nat) == start + body_from(
                    area,
                    x as int,
                    e as nat,
                    l,
                    blocky,
                    0,
                ),
                all_drawn(area, kind, r@),
            decreases hh - row,
        {
            let ghost before = r@;
            let ghost rest = body_from(area, x as int, e as nat, l, blocky, (row + 1) as nat);
            let ch = bar_cell(row, e, blocky, l);
            if ch != ' ' {
                let paint = BarPaint { x, y: area.y + (h - 1 - row as u16), ch, row };
                r.push(paint);
                proof {
                    assert(r@ =~= before + seq![paint]);
                    assert(r@ + rest =~= before + (seq![paint] + rest));
                    assert forall|k: int| 0 <= k < r@.len() implies inside(area, #[trigger] r@[k]) && r@[k].ch != ' ' && placed(area, kind, r@[k]) by {
                        if k < before.len() {
                            assert(r@[k] == before[k]);
                        }
                    }
                }
            } else {
                proof {
                    assert(before + rest =~= before + (Seq::<BarPaint>::empty() + rest));
                }
            }
            row = row + 1;
        }
        let ghost body = r@;
        proof {
            assert(body =~= body + body_from(area, x as int, e as nat, l, blocky, row as nat));
        }
        if p > 0 && p <= hh {
            let paint = BarPaint { x, y: area.y + (h - p as u16), ch: PEAK_MARK, row: p };
            r.push(paint);
            proof {
                assert(r@ =~= body + seq![paint]);
                assert forall|k: int| 0 <= k < r@.len() implies inside(area, #[trigger] r@[k]) && r@[k].ch != ' ' && placed(area, kind, r@[k]) by {
                    if k < body.len() {
                        assert(r@[k] == body[k]);
                    }
                }
            }
        }
        proof {
            assert(r@ =~= start + column_spec(area, kind, x as int, (e as nat, p as nat, l)));
        }
    }
}

fn paint_bar(
    r: &mut Vec<BarPaint>,
    area: Area,
    kind: BarKind,
    bx: usize,
    bar_w: usize,
    e: usize,
    p: usize,
    l: bool,
)
    requires
        edges_fit(area),
        area.x <= bx < area.x + area.width,
        bar_w <= u16::MAX,
        all_drawn(area, kind, old(r)@),
        kind == BarKind::Mirrored ==> paired(area, old(r)@),
    ensures
        final(r)@ == old(r)@ + columns_from(area, kind, bx as int, bar_w as nat, (e as nat, p as nat, l), 0),
        all_drawn(area, kind, final(r)@),
        kind == BarKind::Mirrored ==> paired(area, final(r)@),
{
    let ghost start = old(r)@;
    let ghost lv = (e as nat, p as nat, l);
    let right = area.x as usize + area.width as usize;
    let mut c: usize = 0;
    while c < bar_w && bx + c < right
        invariant
            edges_fit(area),
            right == area.x + area.width,
            area.x <= bx < area.x + area.width,
            bar_w <= u16::MAX,
            0 <= c <= bar_w,
            lv == (e as nat, p as nat, l),
            r@ + columns_from(area, kind, bx as int, bar_w as nat, lv, c as nat) == start
                + columns_from(area, kind, bx as int, bar_w as nat, lv, 0),
            all_drawn(area, kind, r@),
            kind == BarKind::Mirrored ==> paired(area, r@),
        decreases bar_w - c,
    {
        let ghost before = r@;
        let ghost rest = columns_from(area, kind, bx as int, bar_w as nat, lv, (c + 1) as nat);
        let x = (bx + c) as u16;
        paint_column(r, area, kind, x, e, p, l);
        proof {
            assert(r@ + rest =~= before + (column_spec(area, kind, x as int, lv) + rest));
        }
        c = c + 1;
    }
    proof {
        assert(r@ =~= r@ + columns_from(area, kind, bx as int, bar_w as nat, lv, c as nat));
    }
}

/// A laid-out bar is never wider than the area, and gaps are at most one cell.
proof fn lemma_bar_width_bounded(w: nat, n: nat)
    requires
        n >= 1,
        w >= 1,
    ensures
        bar_layout_spec(w, n).0 <= w,
        bar_layout_spec(w, n).1 <= 1,
{
    let per = w / n;
    assert(per <= w) by (nonlinear_arith)
        requires
            per == w / n,
            n >= 1,
    ;
    if n < w && per >= 3 && n > 1 {
        let m = (w - (n - 1)) as nat;
        let q = m / n;
        assert(q <= m) by (nonlinear_arith)
            requires
                q == m / n,
                n >= 1,
        ;
    }
}

fn paint_bars(area: Area, kind: BarKind, eighths: &[usize], peak_rows: &[usize], lit: &[bool]) -> (r:
    Vec<BarPaint>)
    requires
        edges_fit(area),
        kind != BarKind::Mirrored ==> peak_rows@.len() == eighths@.len() && lit@.len()
            == eighths@.len(),
    ensures
        r@ == paints_spec(
            area,
            kind,
            levels(eighths@, peak_rows@, lit@, kind == BarKind::Mirrored),
        ),
        all_drawn(area, kind, r@),
        kind == BarKind::Mirrored ==> paired(area, r@),
{
    let mirrored = kind == BarKind::Mirrored;
    let ghost lvs = levels(eighths@, peak_rows@, lit@, mirrored);
    let n = eighths.len();
    let w = area.width as usize;
    let h = area.height as usize;
    let min_h: usize = if mirrored { 2 } else { 1 };
    if h < min_h || n == 0 || w == 0 {
        return Vec::new();
    }
    let (bar_w, gap) = bar_layout(w, n);
    proof {
        lemma_bar_width_bounded(w as nat, n as nat);
        assert(bars_start_x_spec(area.x as nat, w as nat, n as nat, bar_w as nat, gap as nat)
            <= area.x + w / 2);
    }
    let start = bars_start_x(area.x, w, n, bar_w, gap);
    let ghost startg = start as int;
    let right = area.x as usize + w;
    let step = bar_w + gap;
    let mut r: Vec<BarPaint> = Vec::new();
    let ghost goal = bars_from(area, kind, lvs, startg, bar_w as nat, gap as nat, 0);
    let mut i: usize = 0;
    let mut off: usize = 0;
    while i < n && (start as usize) + off < right
        invariant
            edges_fit(area),
            n == eighths@.len(),
            n == lvs.len(),
            mirrored == (kind == BarKind::Mirrored),
            lvs == levels(eighths@, peak_rows@, lit@, mirrored),
            !mirrored ==> peak_rows@.len() == n && lit@.len() == n,
            right == area.x + area.width,
            area.x <= start,
            startg == start,
            bar_w <= u16::MAX,
            gap <= 1,
            step == bar_w + gap,
            0 <= i <= n,
            off == i * (bar_w + gap),
            off <= right + step,
            r@ + bars_from(area, kind, lvs, startg, bar_w as nat, gap as nat, i as nat) == goal,
            all_drawn(area, kind, r@),
            mirrored ==> paired(area, r@),
        decreases n - i,
    {
        let ghost before = r@;
        let ghost rest = bars_from(area, kind, lvs, startg, bar_w as nat, gap as nat, (i + 1) as nat);
        let bx = start as usize + off;
        let p = if mirrored { 0 } else { peak_rows[i] };
        let l = if mirrored { false } else { lit[i] };
        paint_bar(&mut r, area, kind, bx, bar_w, eighths[i], p, l);
        proof {
            assert(lvs[i as int] == (eighths@[i as int] as nat, p as nat, l));
            assert(r@ + rest =~= before + (columns_from(area, kind, bx as int, bar_w as nat, lvs[i as int], 0) + rest));
            assert((i + 1) * (bar_w + gap) == i * (bar_w + gap) + (bar_w + gap)) by (nonlinear_arith);
        }
        off = off + step;
        i = i + 1;
    }
    proof {
        assert(r@ =~= r@ + bars_from(area, kind, lvs, startg, bar_w as nat, gap as nat, i as nat));
    }
    r
}

/// The cells that the bars style (or, with `blocky`, the blocks style) paints,
/// in drawing order, for bars whose levels are `eighths` (lit eighths of a
/// cell), `peak_rows` (peak row from 1 at the foot, 0 for none) and `lit`
/// (whether a blocky top lights).
pub fn bar_paints(area: Area, eighths: &[usize], peak_rows: &[usize], lit: &[bool], blocky: bool) -> (r:
    Vec<BarPaint>)
    requires
        eighths@.len() == peak_rows@.len(),
        eighths@.len() == lit@.len(),
        edges_fit(area),
    ensures
        r@ == bar_paints_spec(area, eighths@, peak_rows@, lit@, blocky),
        all_drawn(area, if blocky { BarKind::Blocky } else { BarKind::Plain }, r@),
{
    let kind = if blocky { BarKind::Blocky } else { BarKind::Plain };
    paint_bars(area, kind, eighths, peak_rows, lit)
}

/// The cells that the mirror style paints, in drawing order, for bars lit for
/// `eighths` eighths of a cell on each side of the centre line.
pub fn mirror_paints(area: Area, eighths: &[usize]) -> (r: Vec<BarPaint>)
    requires
        edges_fit(area),
    ensures
        r@ == mirror_paints_spec(area, eighths@),
        all_drawn(area, BarKind::Mirrored, r@),
        paired(area, r@),
        forall|k: int|
            0 <= k < r@.len() && (#[trigger] r@[k]).y >= centre(area) ==> r@.contains(
                mirrored(area, r@[k]),
            ),
        forall|k: int|
            0 <= k < r@.len() && (#[trigger] r@[k]).y < centre(area) ==> exists|j: int|
                0 <= j < r@.len() && r@[j].y >= centre(area) && #[trigger] mirrored(area, r@[j])
                    == r@[k],
{
    let none: Vec<bool> = Vec::new();
    let r = paint_bars(area, BarKind::Mirrored, eighths, eighths, none.as_slice());
    proof {
        assert(levels(eighths@, eighths@, none@, true) =~= levels(
            eighths@,
            eighths@,
            Seq::empty(),
            true,
        ));
        lemma_mirror_symmetric(area, r@);
    }
    r
}

/// The mirror style is symmetric about its centre line: every paint on the
/// lower half has its mirror image (same column and row colour, reflected
/// row, `mirror_up` glyph) among the paints, and every paint on the upper half
/// is the mirror image of a paint on the lower half.
pub proof fn lemma_mirror_symmetric(area: Area, s: Seq<BarPaint>)
    requires
        paired(area, s),
    ensures
        forall|k: int|
            0 <= k < s.len() && (#[trigger] s[k]).y >= centre(area) ==> s.contains(
                mirrored(area, s[k]),
            ),
        forall|k: int|
            0 <= k < s.len() && (#[trigger] s[k]).y < centre(area) ==> exists|j: int|
                0 <= j < s.len() && s[j].y >= centre(area) && #[trigger] mirrored(area, s[j])
                    == s[k],
{
    assert forall|k: int| 0 <= k < s.len() && k % 2 == 1 implies (#[trigger] s[k]).y < centre(
        area,
    ) && s[k] == mirrored(area, s[k - 1]) && s[k - 1].y >= centre(area) by {
        let j = k - 1;
        assert(j % 2 == 0);
        assert(centre(area) <= s[j].y < centre(area) + area.height / 2);
    }
    assert forall|k: int|
        0 <= k < s.len() && (#[trigger] s[k]).y >= centre(area) implies s.contains(
        mirrored(area, s[k]),
    ) by {
        if k % 2 == 1 {
            assert(s[k].y < centre(area));
        } else {
            assert(s[k + 1] == mirrored(area, s[k]));
        }
    }
    assert forall|k: int| 0 <= k < s.len() && (#[trigger] s[k]).y < centre(area) implies exists|
        j: int,
    | 0 <= j < s.len() && s[j].y >= centre(area) && #[trigger] mirrored(area, s[j]) == s[k] by {
        if k % 2 == 0 {
            assert(s[k].y >= centre(area));
        } else {
            assert(s[k] == mirrored(area, s[k - 1]));
        }
    }
}

} // verus!
