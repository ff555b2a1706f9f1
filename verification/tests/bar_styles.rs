use spectra::bars::{bar_paints, mirror_paints, BarPaint, PEAK_MARK};
use spectra::layout::{bar_cell, bar_layout, connector_rows, mirror_cell, mirror_up, Area, EIGHTHS, FULL_BLOCK, UPPER_EIGHTH};
use spectra::matrix::spawn_column;

fn area(x: u16, y: u16, width: u16, height: u16) -> Area {
    Area { x, y, width, height }
}

fn centred_start(a: Area, n: usize, bar_w: usize, gap: usize) -> u16 {
    let w = a.width as usize;
    let total = n * bar_w + n.saturating_sub(1) * gap;
    a.x + ((w - total.min(w)) / 2) as u16
}

// The drawing loop of the bars styles, written out directly.
fn expected_bars(a: Area, eighths: &[usize], peaks: &[usize], lit: &[bool], blocky: bool) -> Vec<BarPaint> {
    let h = a.height as usize;
    let w = a.width as usize;
    let n = eighths.len();
    let mut out = Vec::new();
    if h == 0 || n == 0 || w == 0 {
        return out;
    }
    let (bar_w, gap) = bar_layout(w, n);
    let start_x = centred_start(a, n, bar_w, gap);
    for i in 0..n {
        let bx = start_x + (i * (bar_w + gap)) as u16;
        if bx >= a.x + a.width {
            break;
        }
        for col in 0..bar_w {
            let x = bx + col as u16;
            if x >= a.x + a.width {
                break;
            }
            for row in 0..h {
                let ch = bar_cell(row, eighths[i], blocky, lit[i]);
                if ch != ' ' {
                    out.push(BarPaint { x, y: a.y + (h - 1 - row) as u16, ch, row });
                }
            }
            if peaks[i] > 0 && peaks[i] <= h {
                out.push(BarPaint { x, y: a.y + (h - peaks[i]) as u16, ch: PEAK_MARK, row: peaks[i] });
            }
        }
    }
    out
}

fn expected_mirror(a: Area, eighths: &[usize]) -> Vec<BarPaint> {
    let h = a.height as usize;
    let w = a.width as usize;
    let n = eighths.len();
    let mut out = Vec::new();
    if h < 2 || n == 0 || w == 0 {
        return out;
    }
    let half = h / 2;
    let (bar_w, gap) = bar_layout(w, n);
    let start_x = centred_start(a, n, bar_w, gap);
    for i in 0..n {
        let bx = start_x + (i * (bar_w + gap)) as u16;
        if bx >= a.x + a.width {
            break;
        }
        for col in 0..bar_w {
            let x = bx + col as u16;
            if x >= a.x + a.width {
                break;
            }
            for row in 0..half {
                let ch = mirror_cell(row, eighths[i]);
                if ch != ' ' {
                    out.push(BarPaint { x, y: a.y + (half + row) as u16, ch, row });
                    out.push(BarPaint { x, y: a.y + (half - 1 - row) as u16, ch: mirror_up(ch), row });
                }
            }
        }
    }
    out
}

#[test]
fn bars_paint_small_example() {
    let a = area(2, 1, 5, 3);
    let r = bar_paints(a, &[9, 24], &[2, 0], &[true, true], false);
    // Two bars of two cells with no gap, centred from column 2 (one spare cell, halved to none).
    assert_eq!(
        r,
        vec![
            BarPaint { x: 2, y: 3, ch: FULL_BLOCK, row: 0 },
            BarPaint { x: 2, y: 2, ch: EIGHTHS[1], row: 1 },
            BarPaint { x: 2, y: 2, ch: PEAK_MARK, row: 2 },
            BarPaint { x: 3, y: 3, ch: FULL_BLOCK, row: 0 },
            BarPaint { x: 3, y: 2, ch: EIGHTHS[1], row: 1 },
            BarPaint { x: 3, y: 2, ch: PEAK_MARK, row: 2 },
            BarPaint { x: 4, y: 3, ch: FULL_BLOCK, row: 0 },
            BarPaint { x: 4, y: 2, ch: FULL_BLOCK, row: 1 },
            BarPaint { x: 4, y: 1, ch: FULL_BLOCK, row: 2 },
            BarPaint { x: 5, y: 3, ch: FULL_BLOCK, row: 0 },
            BarPaint { x: 5, y: 2, ch: FULL_BLOCK, row: 1 },
            BarPaint { x: 5, y: 1, ch: FULL_BLOCK, row: 2 },
        ]
    );
}

#[test]
fn bars_paint_like_the_drawing_loop() {
    let levels: Vec<usize> = (0..40).map(|i| (i * 7) % 50).collect();
    let peaks: Vec<usize> = (0..40).map(|i| (i * 3) % 8).collect();
    let lit: Vec<bool> = (0..40).map(|i| i % 3 != 0).collect();
    for &(w, h) in &[(1u16, 1u16), (10, 4), (30, 6), (80, 5), (7, 2), (0, 5), (5, 0)] {
        for n in [0usize, 1, 3, 10, 40] {
            for blocky in [false, true] {
                let a = area(3, 2, w, h);
                let got = bar_paints(a, &levels[..n], &peaks[..n], &lit[..n], blocky);
                assert_eq!(got, expected_bars(a, &levels[..n], &peaks[..n], &lit[..n], blocky));
                for p in &got {
                    assert!(p.x >= a.x && p.x < a.x + a.width && p.y >= a.y && p.y < a.y + a.height);
                    assert_ne!(p.ch, ' ');
                }
            }
        }
    }
}

#[test]
fn blocky_top_lights_fully() {
    let a = area(0, 0, 1, 2);
    let r = bar_paints(a, &[4], &[0], &[true], true);
    assert_eq!(r, vec![BarPaint { x: 0, y: 1, ch: FULL_BLOCK, row: 0 }]);
    let r = bar_paints(a, &[4], &[0], &[false], true);
    assert_eq!(r, Vec::new());
}

#[test]
fn mirror_paints_like_the_drawing_loop() {
    let levels: Vec<usize> = (0..40).map(|i| (i * 5) % 33).collect();
    for &(w, h) in &[(10u16, 2u16), (10, 5), (30, 8), (80, 7), (3, 1), (0, 6)] {
        for n in [0usize, 1, 4, 10, 40] {
            let a = area(1, 4, w, h);
            let got = mirror_paints(a, &levels[..n]);
            assert_eq!(got, expected_mirror(a, &levels[..n]));
        }
    }
}

#[test]
fn mirror_is_symmetric_about_the_centre() {
    let a = area(0, 3, 12, 9);
    let r = mirror_paints(a, &[1, 9, 17, 30]);
    let centre = a.y + a.height / 2;
    assert!(!r.is_empty());
    for p in &r {
        if p.y >= centre {
            let q = BarPaint { x: p.x, y: 2 * centre - 1 - p.y, ch: mirror_up(p.ch), row: p.row };
            assert!(r.contains(&q));
        } else {
            assert!(r.iter().any(|d| d.y >= centre
                && d.x == p.x
                && 2 * centre - 1 - d.y == p.y
                && mirror_up(d.ch) == p.ch));
        }
    }
    assert!(r.iter().any(|p| p.ch == UPPER_EIGHTH));
}

#[test]
fn spawn_needs_acceptance_and_a_free_column() {
    let free = [0u16, 2, 5];
    assert_eq!(spawn_column(&free, &[], 4, true), Some(2));
    assert_eq!(spawn_column(&free, &[], 4, false), None);
    assert_eq!(spawn_column(&free, &[2], 4, true), None);
    assert_eq!(spawn_column(&free, &[7, 9], 3, true), Some(0));
}

#[test]
fn spawns_keep_one_drop_per_column() {
    let free: Vec<u16> = (0..20).collect();
    let mut drops: Vec<u16> = Vec::new();
    let mut s: u64 = 12345;
    for _ in 0..200 {
        let draw = spectra::rng::next_u64(&mut s);
        if let Some(c) = spawn_column(&free, &drops, draw, draw % 3 != 0) {
            drops.push(c);
        }
    }
    let mut sorted = drops.clone();
    sorted.sort();
    sorted.dedup();
    assert_eq!(sorted.len(), drops.len());
}

#[test]
fn connector_rows_lie_strictly_between() {
    assert_eq!(connector_rows(2, 6), (3, 6));
    assert_eq!(connector_rows(6, 2), (3, 6));
    assert_eq!(connector_rows(4, 4), (5, 4));
    assert_eq!(connector_rows(4, 5), (5, 5));
}
