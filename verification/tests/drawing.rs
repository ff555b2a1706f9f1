use spectra::halfcell::{CellPaint, HalfCell, HalfMark, Rgb, FULL, LOWER_HALF, UPPER_HALF};
use spectra::layout::{
    bar_cell, bar_layout, bars_start_x, mirror_cell, mirror_up, split_bars_wave, Area, EIGHTHS,
    FULL_BLOCK, UPPER_EIGHTH,
};
use spectra::rng::{matrix_char, next_u64, MATRIX_CHARS, RNG_SEED};

fn area(x: u16, y: u16, width: u16, height: u16) -> Area {
    Area { x, y, width, height }
}

#[test]
fn bar_layout_cases() {
    assert_eq!(bar_layout(10, 0), (0, 0));
    assert_eq!(bar_layout(5, 10), (1, 0));
    assert_eq!(bar_layout(10, 10), (1, 0));
    assert_eq!(bar_layout(30, 10), (2, 1));
    assert_eq!(bar_layout(20, 10), (2, 0));
    assert_eq!(bar_layout(10, 1), (10, 0));
    assert_eq!(bar_layout(80, 10), (7, 1));
}

#[test]
fn bars_fit_in_width() {
    for width in 1..200usize {
        for n in 1..width {
            let (w, g) = bar_layout(width, n);
            assert!(w >= 1);
            assert!(n * w + (n - 1) * g <= width);
        }
    }
}

#[test]
fn bars_are_centred() {
    assert_eq!(bars_start_x(0, 80, 10, 7, 1), 0);
    assert_eq!(bars_start_x(0, 25, 10, 2, 0), 2);
    assert_eq!(bars_start_x(5, 5, 10, 1, 0), 5);
    assert_eq!(bars_start_x(2, 20, 10, 2, 0), 2);
}

#[test]
fn bar_cells_by_eighths() {
    assert_eq!(bar_cell(0, 20, false, true), FULL_BLOCK);
    assert_eq!(bar_cell(1, 20, false, true), FULL_BLOCK);
    assert_eq!(bar_cell(2, 20, false, true), EIGHTHS[4]);
    assert_eq!(bar_cell(3, 20, false, true), ' ');
    assert_eq!(bar_cell(2, 20, true, true), FULL_BLOCK);
    assert_eq!(bar_cell(2, 20, true, false), ' ');
    assert_eq!(bar_cell(2, 16, false, true), ' ');
}

#[test]
fn mirror_cells() {
    assert_eq!(mirror_cell(0, 9), FULL_BLOCK);
    assert_eq!(mirror_cell(1, 9), EIGHTHS[1]);
    assert_eq!(mirror_cell(2, 9), ' ');
    assert_eq!(mirror_up(EIGHTHS[1]), UPPER_EIGHTH);
    assert_eq!(mirror_up(EIGHTHS[5]), EIGHTHS[5]);
    assert_eq!(mirror_up(FULL_BLOCK), FULL_BLOCK);
}

#[test]
fn bars_wave_split() {
    assert_eq!(split_bars_wave(area(0, 0, 40, 3)), None);
    assert_eq!(
        split_bars_wave(area(2, 1, 40, 12)),
        Some((area(2, 1, 40, 8), area(2, 9, 40, 4)))
    );
    assert_eq!(
        split_bars_wave(area(0, 0, 40, 5)),
        Some((area(0, 0, 40, 2), area(0, 2, 40, 3)))
    );
}

fn rgb(r: u8, g: u8, b: u8) -> Rgb {
    Rgb { r, g, b }
}

#[test]
fn half_cells_combine() {
    let mut h = HalfCell::new(area(10, 5, 3, 2));
    let red = rgb(255, 0, 0);
    let blue = rgb(0, 0, 255);
    h.plot(0, 0, red);
    h.plot(1, 1, blue);
    h.plot(2, 2, red);
    h.plot(2, 3, red);
    h.plot(0, 3, red);
    h.plot(0, 2, blue);
    h.plot(-1, 0, red);
    h.plot(3, 0, red);
    h.plot(0, 4, red);
    let cells = h.cells();
    assert_eq!(cells.len(), 6);
    assert_eq!(
        cells[0],
        CellPaint { x: 10, y: 5, mark: Some(HalfMark { ch: UPPER_HALF, fg: red, bg: None }) }
    );
    assert_eq!(
        cells[1],
        CellPaint { x: 11, y: 5, mark: Some(HalfMark { ch: LOWER_HALF, fg: blue, bg: None }) }
    );
    assert_eq!(cells[2], CellPaint { x: 12, y: 5, mark: None });
    assert_eq!(
        cells[3],
        CellPaint { x: 10, y: 6, mark: Some(HalfMark { ch: UPPER_HALF, fg: blue, bg: Some(red) }) }
    );
    assert_eq!(cells[4], CellPaint { x: 11, y: 6, mark: None });
    assert_eq!(
        cells[5],
        CellPaint { x: 12, y: 6, mark: Some(HalfMark { ch: FULL, fg: red, bg: None }) }
    );
}

fn xorshift(mut x: u64) -> u64 {
    x ^= x << 13;
    x ^= x >> 7;
    x ^= x << 17;
    x
}

#[test]
fn next_u64_steps_xorshift() {
    let mut s: u64 = 1;
    let r = next_u64(&mut s);
    assert_eq!(r, 0x4082_2041);
    assert_eq!(s, r);
    let mut z: u64 = 0;
    let r0 = next_u64(&mut z);
    assert_eq!(r0, xorshift(RNG_SEED));
    assert_eq!(r0, 0xdc1b_77ae_0bf3_4dad);
}

#[test]
fn generator_never_returns_to_zero() {
    let mut s = RNG_SEED;
    for _ in 0..10_000 {
        let r = next_u64(&mut s);
        assert_ne!(r, 0);
        assert_eq!(r, s);
    }
}

#[test]
fn matrix_char_draws_from_the_thai_set() {
    let mut s: u64 = 1;
    let c = matrix_char(&mut s);
    assert_eq!(s, 0x4082_2041);
    assert_eq!(c, MATRIX_CHARS[(0x4082_2041u64 % 51) as usize]);
    assert_eq!(c, '\u{0E2A}');
    for _ in 0..500 {
        assert!(MATRIX_CHARS.contains(&matrix_char(&mut s)));
    }
}
