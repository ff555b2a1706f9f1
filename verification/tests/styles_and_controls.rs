use spectra::controls::{
    frame_bars, frame_millis, split_frame, status_cells, Controls, Key, Outcome, MAX_BARS,
};
use spectra::layout::Area;
use spectra::styles::{theme_name, Style, Theme};

#[test]
fn all_styles_in_cycle_order() {
    let all = Style::all();
    assert_eq!(all.len(), 10);
    assert_eq!(all[0], Style::Bars);
    assert_eq!(all[4], Style::BarsWave);
    assert_eq!(all[9], Style::Particles);
}

#[test]
fn style_names_match_the_readme() {
    let names: Vec<&str> = Style::all().iter().map(|s| s.name()).collect();
    assert_eq!(
        names,
        vec![
            "bars", "mirror", "wave", "spectro", "bars+wave", "blocks", "radial", "lissajous",
            "matrix", "particles"
        ]
    );
}

#[test]
fn next_and_prev_wrap_around() {
    assert_eq!(Style::Bars.next(), Style::Mirror);
    assert_eq!(Style::Particles.next(), Style::Bars);
    assert_eq!(Style::Bars.prev(), Style::Particles);
    assert_eq!(Style::Wave.prev(), Style::Mirror);
}

#[test]
fn next_then_prev_is_identity() {
    for &s in Style::all() {
        assert_eq!(s.next().prev(), s);
        assert_eq!(s.prev().next(), s);
    }
}

#[test]
fn ten_nexts_come_back() {
    for &s in Style::all() {
        let mut t = s;
        for k in 1..=10 {
            t = t.next();
            if k < 10 {
                assert_ne!(t, s);
            }
        }
        assert_eq!(t, s);
    }
}

#[test]
fn theme_names() {
    assert_eq!(theme_name(Theme::Rainbow), "rainbow");
    assert_eq!(theme_name(Theme::Fire), "fire");
    assert_eq!(theme_name(Theme::Ocean), "ocean");
    assert_eq!(theme_name(Theme::Mono), "mono");
    assert_eq!(theme_name(Theme::Magma), "magma");
}

#[test]
fn theme_key_cycles_in_readme_order() {
    let mut c = Controls::new(Style::Bars, Theme::Rainbow, 10);
    let mut seen = Vec::new();
    for _ in 0..5 {
        assert_eq!(c.handle_key(Key::Char('t'), false, true), Outcome::Continue);
        seen.push(c.theme());
    }
    assert_eq!(seen, vec![Theme::Fire, Theme::Ocean, Theme::Magma, Theme::Mono, Theme::Rainbow]);
}

#[test]
fn theme_key_starts_from_initial_theme() {
    let mut c = Controls::new(Style::Bars, Theme::Magma, 10);
    c.handle_key(Key::Char('t'), false, true);
    assert_eq!(c.theme(), Theme::Mono);
}

#[test]
fn quit_keys() {
    let mut c = Controls::new(Style::Wave, Theme::Fire, 10);
    assert_eq!(c.handle_key(Key::Char('q'), false, true), Outcome::Quit);
    assert_eq!(c.handle_key(Key::Esc, false, true), Outcome::Quit);
    assert_eq!(c.handle_key(Key::Char('c'), true, true), Outcome::Quit);
    assert_eq!(c.handle_key(Key::Char('c'), false, true), Outcome::Continue);
    assert_eq!(c.style(), Style::Wave);
}

#[test]
fn releases_are_skipped() {
    let mut c = Controls::new(Style::Wave, Theme::Fire, 10);
    assert_eq!(c.handle_key(Key::Char('q'), false, false), Outcome::Skip);
    assert_eq!(c.handle_key(Key::Right, false, false), Outcome::Skip);
    assert_eq!(c.style(), Style::Wave);
}

#[test]
fn style_keys() {
    let mut c = Controls::new(Style::Bars, Theme::Rainbow, 10);
    c.handle_key(Key::Char(' '), false, true);
    assert_eq!(c.style(), Style::Mirror);
    c.handle_key(Key::Right, false, true);
    c.handle_key(Key::Tab, false, true);
    assert_eq!(c.style(), Style::Spectro);
    c.handle_key(Key::Left, false, true);
    c.handle_key(Key::BackTab, false, true);
    assert_eq!(c.style(), Style::Mirror);
    c.handle_key(Key::Char('9'), false, true);
    assert_eq!(c.style(), Style::Matrix);
    c.handle_key(Key::Char('p'), false, true);
    assert_eq!(c.style(), Style::Particles);
    c.handle_key(Key::Char('5'), false, true);
    assert_eq!(c.style(), Style::BarsWave);
}

#[test]
fn speed_keys() {
    let mut c = Controls::new(Style::Bars, Theme::Rainbow, 10);
    assert_eq!(c.handle_key(Key::Char('+'), false, true), Outcome::SpeedUp);
    assert_eq!(c.handle_key(Key::Char('='), false, true), Outcome::SpeedUp);
    assert_eq!(c.handle_key(Key::Char('-'), false, true), Outcome::SpeedDown);
    assert_eq!(c.handle_key(Key::Char('_'), false, true), Outcome::SpeedDown);
    assert_eq!(c.handle_key(Key::Other, false, true), Outcome::Continue);
}

#[test]
fn bar_keys() {
    let mut c = Controls::new(Style::Bars, Theme::Rainbow, 10);
    c.handle_key(Key::Char(']'), false, true);
    assert_eq!(c.bars_override(), 12);
    c.handle_key(Key::Char('0'), false, true);
    assert_eq!(c.bars_override(), 0);
    c.handle_key(Key::Char(']'), false, true);
    assert_eq!(c.bars_override(), 3);
    c.handle_key(Key::Char('['), false, true);
    assert_eq!(c.bars_override(), 2);
    c.handle_key(Key::Char('['), false, true);
    assert_eq!(c.bars_override(), 2);
    let mut d = Controls::new(Style::Bars, Theme::Rainbow, 511);
    d.handle_key(Key::Char(']'), false, true);
    assert_eq!(d.bars_override(), MAX_BARS);
    let mut e = Controls::new(Style::Bars, Theme::Rainbow, 1000);
    e.handle_key(Key::Char('['), false, true);
    assert_eq!(e.bars_override(), 998);
}

fn area(x: u16, y: u16, width: u16, height: u16) -> Area {
    Area { x, y, width, height }
}

#[test]
fn frame_bars_per_style() {
    let vis = area(0, 0, 80, 20);
    assert_eq!(frame_bars(Style::Wave, 10, vis), 64);
    assert_eq!(frame_bars(Style::Lissajous, 10, vis), 64);
    assert_eq!(frame_bars(Style::Spectro, 10, vis), 20);
    assert_eq!(frame_bars(Style::Spectro, 10, area(0, 0, 80, 5)), 16);
    assert_eq!(frame_bars(Style::Matrix, 10, vis), 32);
    assert_eq!(frame_bars(Style::Particles, 10, vis), 32);
    assert_eq!(frame_bars(Style::Radial, 10, vis), 24);
    assert_eq!(frame_bars(Style::Radial, 50, vis), 50);
    assert_eq!(frame_bars(Style::Radial, 500, vis), 96);
    assert_eq!(frame_bars(Style::Bars, 10, vis), 10);
    assert_eq!(frame_bars(Style::Bars, 0, vis), 80);
    assert_eq!(frame_bars(Style::Blocks, 200, vis), 80);
    assert_eq!(frame_bars(Style::Mirror, 0, area(0, 0, 0, 20)), 1);
}

#[test]
fn frame_split_with_status_bar() {
    let (vis, status) = split_frame(area(0, 0, 80, 24), true);
    assert_eq!(vis, area(0, 0, 80, 23));
    assert_eq!(status, Some(area(0, 23, 80, 1)));
    let (vis, status) = split_frame(area(0, 0, 80, 2), true);
    assert_eq!(vis, area(0, 0, 80, 2));
    assert_eq!(status, None);
    let (vis, status) = split_frame(area(0, 0, 80, 24), false);
    assert_eq!(vis, area(0, 0, 80, 24));
    assert_eq!(status, None);
}

#[test]
fn frame_period_clamps_fps() {
    assert_eq!(frame_millis(60), 16);
    assert_eq!(frame_millis(0), 1000);
    assert_eq!(frame_millis(1), 1000);
    assert_eq!(frame_millis(120), 8);
    assert_eq!(frame_millis(1000), 8);
}

#[test]
fn status_bar_cut_and_padded() {
    let text: Vec<char> = "spectra".chars().collect();
    assert_eq!(status_cells(&text, 4), vec!['s', 'p', 'e', 'c']);
    assert_eq!(
        status_cells(&text, 10),
        vec!['s', 'p', 'e', 'c', 't', 'r', 'a', ' ', ' ', ' ']
    );
    assert_eq!(status_cells(&text, 0), Vec::<char>::new());
}
