use vstd::prelude::*;
use crate::layout::Area;
use crate::styles::{Style, Theme, next_style, prev_style};

verus! {

/// The keys the visualizer distinguishes.
#[derive(Clone, Copy, Debug, PartialEq, Eq, Structural)]
pub enum Key {
    Char(char),
    Esc,
    Left,
    Right,
    Tab,
    BackTab,
    Other,
}

/// What the frame loop does after a key.
#[derive(Clone, Copy, Debug, PartialEq, Eq, Structural)]
pub enum Outcome {
    /// Not a key press: go back to waiting without drawing a frame.
    Skip,
    /// Leave the visualizer.
    Quit,
    /// Make the animation snappier.
    SpeedUp,
    /// Make the animation smoother.
    SpeedDown,
    /// Go on to draw the next frame.
    Continue,
}

/// Most bars that "more bars" reaches.
pub const MAX_BARS: usize = 512;

/// The order in which the theme key walks the themes.
pub const THEME_CYCLE: [Theme; 5] = [Theme::Rainbow, Theme::Fire, Theme::Ocean, Theme::Magma, Theme::Mono];

/// Position of a theme in the theme cycle.
pub open spec fn theme_pos(t: Theme) -> int {
    match t {
        Theme::Rainbow => 0,
        Theme::Fire => 1,
        Theme::Ocean => 2,
        Theme::Magma => 3,
        Theme::Mono => 4,
    }
}

/// The theme at a position of the theme cycle.
pub open spec fn theme_at(i: int) -> Theme {
    if i == 1 {
        Theme::Fire
    } else if i == 2 {
        Theme::Ocean
    } else if i == 3 {
        Theme::Magma
    } else if i == 4 {
        Theme::Mono
    } else {
        Theme::Rainbow
    }
}

/// The style that a digit or letter key selects directly.
pub open spec fn direct_style(c: char) -> Option<Style> {
    if c == '1' {
        Some(Style::Bars)
    } else if c == '2' {
        Some(Style::Mirror)
    } else if c == '3' {
        Some(Style::Wave)
    } else if c == '4' {
        Some(Style::Spectro)
    } else if c == '5' {
        Some(Style::BarsWave)
    } else if c == '6' {
        Some(Style::Blocks)
    } else if c == '7' {
        Some(Style::Radial)
    } else if c == '8' {
        Some(Style::Lissajous)
    } else if c == '9' {
        Some(Style::Matrix)
    } else if c == 'p' {
        Some(Style::Particles)
    } else {
        None
    }
}

/// The bar count after "more bars".
pub open spec fn more_bars(b: nat) -> nat {
    let s = (if b >= 1 { b } else { 1 }) + 2;
    if s <= MAX_BARS { s } else { MAX_BARS as nat }
}

/// The bar count after "fewer bars".
pub open spec fn fewer_bars(b: nat) -> nat {
    let s: nat = if b >= 2 { (b - 2) as nat } else { 0 };
    if s >= 2 { s } else { 2 }
}

/// Whether a key quits.
pub open spec fn is_quit_key(key: Key, ctrl: bool) -> bool {
    key == Key::Char('q') || key == Key::Esc || (key == Key::Char('c') && ctrl)
}

/// Position of a theme in `THEME_CYCLE`.
fn theme_position(theme: Theme) -> (r: usize)
    ensures
        r == theme_pos(theme),
{
    let mut i: usize = 0;
    while i < THEME_CYCLE.len()
        invariant
            0 <= i <= 5,
            forall|k: int| 0 <= k < i ==> theme_at(k) != theme,
        decreases 5 - i,
    {
        proof {
            assert(THEME_CYCLE[i as int] == theme_at(i as int));
        }
        if THEME_CYCLE[i] == theme {
            return i;
        }
        i = i + 1;
    }
    proof {
        assert(theme_at(theme_pos(theme)) == theme);
    }
    0
}

/// The interactive state of the visualizer: style, theme (with its place in
/// the theme cycle) and the bar count the user asked for (0 fits the width).
pub struct Controls {
    style: Style,
    theme: Theme,
    theme_idx: usize,
    bars_override: usize,
}

impl Controls {
    /// The current style.
    pub closed spec fn style_spec(&self) -> Style {
        self.style
    }

    /// The current theme.
    pub closed spec fn theme_spec(&self) -> Theme {
        self.theme
    }

    /// The current place in the theme cycle.
    pub closed spec fn theme_index(&self) -> nat {
        self.theme_idx as nat
    }

    /// The bar count the user asked for; 0 fits the bars to the width.
    pub closed spec fn bars_spec(&self) -> nat {
        self.bars_override as nat
    }

    /// The theme is the one at its place in the theme cycle.
    pub open spec fn wf(&self) -> bool {
        &&& self.theme_index() < 5
        &&& self.theme_spec() == theme_at(self.theme_index() as int)
    }

    /// The state after one key: `press` is false for key releases and repeats
    /// the terminal reports, which change nothing.
    pub open spec fn after_key(&self, key: Key, ctrl: bool, press: bool) -> (Style, nat, nat) {
        let s = self.style_spec();
        let t = self.theme_index();
        let b = self.bars_spec();
        if !press || is_quit_key(key, ctrl) {
            (s, t, b)
        } else {
            match key {
                Key::Char(c) => if c == ' ' {
                    (next_style(s), t, b)
                } else if c == 't' {
                    (s, ((t + 1) % 5) as nat, b)
                } else if direct_style(c) is Some {
                    (direct_style(c)->0, t, b)
                } else if c == ']' {
                    (s, t, more_bars(b))
                } else if c == '[' {
                    (s, t, fewer_bars(b))
                } else if c == '0' {
                    (s, t, 0)
                } else {
                    (s, t, b)
                },
                Key::Right | Key::Tab => (next_style(s), t, b),
                Key::Left | Key::BackTab => (prev_style(s), t, b),
                _ => (s, t, b),
            }
        }
    }

    /// What the frame loop does after one key.
    pub open spec fn outcome_of(key: Key, ctrl: bool, press: bool) -> Outcome {
        if !press {
            Outcome::Skip
        } else if is_quit_key(key, ctrl) {
            Outcome::Quit
        } else if key == Key::Char('+') || key == Key::Char('=') {
            Outcome::SpeedUp
        } else if key == Key::Char('-') || key == Key::Char('_') {
            Outcome::SpeedDown
        } else {
            Outcome::Continue
        }
    }

    /// Starts at `style` and `theme`, with the bar count given on the command line.
    pub fn new(style: Style, theme: Theme, user_bars: usize) -> (r: Self)
        ensures
            r.wf(),
            r.style_spec() == style,
            r.theme_spec() == theme,
            r.theme_index() == theme_pos(theme),
            r.bars_spec() == user_bars,
    {
        let idx = theme_position(theme);
        Controls { style, theme, theme_idx: idx, bars_override: user_bars }
    }

    /// The current style.
    pub fn style(&self) -> (r: Style)
        ensures
            r == self.style_spec(),
    {
        self.style
    }

    /// The current theme.
    pub fn theme(&self) -> (r: Theme)
        ensures
            r == self.theme_spec(),
    {
        self.theme
    }

    /// The bar count the user asked for; 0 fits the bars to the width.
    pub fn bars_override(&self) -> (r: usize)
        ensures
            r == self.bars_spec(),
    {
        self.bars_override
    }

    /// Applies one key and says what the frame loop does next.
    pub fn handle_key(&mut self, key: Key, ctrl: bool, press: bool) -> (r: Outcome)
        requires
            old(self).wf(),
            press && key == Key::Char(']') ==> old(self).bars_spec() < usize::MAX - 1,
        ensures
            final(self).wf(),
            (final(self).style_spec(), final(self).theme_index(), final(self).bars_spec())
                == old(self).after_key(key, ctrl, press),
            r == Self::outcome_of(key, ctrl, press),
    {
        if !press {
            return Outcome::Skip;
        }
        match key {
            Key::Char('q') | Key::Esc => Outcome::Quit,
            Key::Char('c') if ctrl => Outcome::Quit,
            Key::Char(' ') | Key::Right | Key::Tab => {
                self.style = self.style.next();
                Outcome::Continue
            },
            Key::Left | Key::BackTab => {
                self.style = self.style.prev();
                Outcome::Continue
            },
            Key::Char('t') => {
                self.theme_idx = (self.theme_idx + 1) % THEME_CYCLE.len();
                self.theme = THEME_CYCLE[self.theme_idx];
                Outcome::Continue
            },
            Key::Char('1') => {
                self.style = Style::Bars;
                Outcome::Continue
            },
            Key::Char('2') => {
                self.style = Style::Mirror;
                Outcome::Continue
            },
            Key::Char('3') => {
                self.style = Style::Wave;
                Outcome::Continue
            },
            Key::Char('4') => {
                self.style = Style::Spectro;
                Outcome::Continue
            },
            Key::Char('5') => {
                self.style = Style::BarsWave;
                Outcome::Continue
            },
            Key::Char('6') => {
                self.style = Style::Blocks;
                Outcome::Continue
            },
            Key::Char('7') => {
                self.style = Style::Radial;
                Outcome::Continue
            },
            Key::Char('8') => {
                self.style = Style::Lissajous;
                Outcome::Continue
            },
            Key::Char('9') => {
                self.style = Style::Matrix;
                Outcome::Continue
            },
            Key::Char('p') => {
                self.style = Style::Particles;
                Outcome::Continue
            },
            Key::Char('+') | Key::Char('=') => Outcome::SpeedUp,
            Key::Char('-') | Key::Char('_') => Outcome::SpeedDown,
            Key::Char(']') => {
                let b = if self.bars_override >= 1 { self.bars_override } else { 1 };
                let s = b + 2;
                self.bars_override = if s <= MAX_BARS { s } else { MAX_BARS };
                Outcome::Continue
            },
            Key::Char('[') => {
                let s = if self.bars_override >= 2 { self.bars_override - 2 } else { 0 };
                self.bars_override = if s >= 2 { s } else { 2 };
                Outcome::Continue
            },
            Key::Char('0') => {
                self.bars_override = 0;
                Outcome::Continue
            },
            _ => Outcome::Continue,
        }
    }
}

/// How many bars a style analyses in a frame whose visual area is `vis`:
/// fixed counts for the waveform, figure and particle styles, one per row
/// (at least 16) for the spectrogram, 24 to 96 for the radial style, and
/// otherwise the user's count, capped at the width, or the width when the user
/// asked to fit it; never fewer than one.
pub open spec fn frame_bars_spec(style: Style, bars_override: nat, vis: Area) -> nat {
    let target: nat = match style {
        Style::Wave | Style::Lissajous => 64,
        Style::Spectro => if vis.height >= 16 { vis.height as nat } else { 16 },
        Style::Matrix | Style::Particles => 32,
        Style::Radial => {
            let a: nat = if bars_override >= 24 { bars_override } else { 24 };
            if a <= 96 { a } else { 96 }
        },
        _ => if bars_override == 0 {
            vis.width as nat
        } else {
            let a: nat = if bars_override <= vis.width { bars_override } else { vis.width as nat };
            if a >= 1 { a } else { 1 }
        },
    };
    if target >= 1 { target } else { 1 }
}

/// The number of bars to analyse for a frame.
pub fn frame_bars(style: Style, bars_override: usize, vis: Area) -> (r: usize)
    ensures
        r == frame_bars_spec(style, bars_override as nat, vis),
{
    let width = vis.width as usize;
    let target: usize = match style {
        Style::Wave | Style::Lissajous => 64,
        Style::Spectro => {
            let h = vis.height as usize;
            if h >= 16 { h } else { 16 }
        },
        Style::Matrix | Style::Particles => 32,
        Style::Radial => {
            let a = if bars_override >= 24 { bars_override } else { 24 };
            if a <= 96 { a } else { 96 }
        },
        _ => {
            if bars_override == 0 {
                width
            } else {
                let a = if bars_override <= width { bars_override } else { width };
                if a >= 1 { a } else { 1 }
            }
        },
    };
    if target >= 1 { target } else { 1 }
}

/// Splits the terminal into the visual area and, when the status bar is
/// shown and there are more than two rows, the status bar on the last row.
pub fn split_frame(size: Area, show_ui: bool) -> (r: (Area, Option<Area>))
    ensures
        show_ui && size.height > 2 ==> r == (
            Area { x: 0, y: 0, width: size.width, height: (size.height - 1) as u16 },
            Some(Area { x: 0, y: (size.height - 1) as u16, width: size.width, height: 1 }),
        ),
        !(show_ui && size.height > 2) ==> r == (size, None::<Area>),
{
    if show_ui && size.height > 2 {
        (
            Area { x: 0, y: 0, width: size.width, height: size.height - 1 },
            Some(Area { x: 0, y: size.height - 1, width: size.width, height: 1 }),
        )
    } else {
        (size, None)
    }
}

/// The characters of a status bar `width` cells wide: the text, cut at the
/// width, then blanks to the end of the bar.
pub open spec fn status_cells_spec(text: Seq<char>, width: nat) -> Seq<char> {
    if text.len() >= width {
        text.subrange(0, width as int)
    } else {
        text + Seq::new((width - text.len()) as nat, |i: int| ' ')
    }
}

/// The characters that fill a status bar `width` cells wide.
pub fn status_cells(text: &[char], width: u16) -> (r: Vec<char>)
    ensures
        r@ == status_cells_spec(text@, width as nat),
        r@.len() == width,
{
    let w = width as usize;
    let mut r: Vec<char> = Vec::with_capacity(w);
    let mut i: usize = 0;
    while i < w && i < text.len()
        invariant
            0 <= i <= w,
            i <= text@.len(),
            w == width,
            r@ == text@.subrange(0, i as int),
        decreases w - i,
    {
        r.push(text[i]);
        i = i + 1;
        proof {
            assert(r@ =~= text@.subrange(0, i as int));
        }
    }
    let ghost head = r@;
    while i < w
        invariant
            0 <= i <= w,
            w == width,
            head.len() <= i,
            head == text@.subrange(0, head.len() as int),
            head.len() == (if text@.len() >= w { w as nat } else { text@.len() }),
            r@ == head + Seq::new((i - head.len()) as nat, |j: int| ' '),
        decreases w - i,
    {
        r.push(' ');
        i = i + 1;
        proof {
            assert(r@ =~= head + Seq::new((i - head.len()) as nat, |j: int| ' '));
        }
    }
    proof {
        if text@.len() >= w {
            assert(r@ =~= status_cells_spec(text@, width as nat));
        } else {
            assert(head =~= text@);
            assert(r@ =~= status_cells_spec(text@, width as nat));
        }
    }
    r
}

/// Frame period in milliseconds for a requested frame rate, which is first
/// clamped to 1..=120 frames per second.
pub fn frame_millis(fps: u32) -> (r: u64)
    ensures
        r == 1000int / (if fps < 1 { 1int } else if fps > 120 { 120int } else { fps as int }),
        8 <= r <= 1000,
{
    let f = if fps < 1 { 1 } else if fps > 120 { 120 } else { fps };
    proof {
        assert(8 <= 1000int / (f as int) <= 1000) by (nonlinear_arith)
            requires
                1 <= f <= 120,
        ;
    }
    (1000 / f) as u64
}

/// Five presses of the theme key come back to the starting theme, passing
/// rainbow, fire, ocean, magma and mono in turn.
pub proof fn lemma_theme_cycle(c: Controls)
    requires
        c.wf(),
    ensures
        ({
            let t = c.theme_index();
            let (s1, t1, b1) = c.after_key(Key::Char('t'), false, true);
            &&& t1 == (t + 1) % 5
            &&& s1 == c.style_spec() && b1 == c.bars_spec()
            &&& (((((t + 1) % 5 + 1) % 5 + 1) % 5 + 1) % 5 + 1) % 5 == t
        }),
        theme_at(0) == Theme::Rainbow && theme_at(1) == Theme::Fire && theme_at(2) == Theme::Ocean
            && theme_at(3) == Theme::Magma && theme_at(4) == Theme::Mono,
        forall|t: Theme| theme_at(#[trigger] theme_pos(t)) == t,
{
}

/// Key releases and quit keys leave the state as it is.
pub proof fn lemma_ignored_keys_change_nothing(c: Controls, key: Key, ctrl: bool, press: bool)
    requires
        !press || is_quit_key(key, ctrl),
    ensures
        c.after_key(key, ctrl, press) == (c.style_spec(), c.theme_index(), c.bars_spec()),
{
}

/// "More bars" gives between 3 and 512 bars; "fewer bars" never goes below 2
/// nor above the larger of the old count and 2; "fit" gives 0.
pub proof fn lemma_bar_keys_bounds(b: nat)
    ensures
        3 <= more_bars(b) <= MAX_BARS,
        2 <= fewer_bars(b),
        fewer_bars(b) <= (if b >= 2 { b } else { 2 }),
        b <= MAX_BARS ==> fewer_bars(b) <= MAX_BARS,
{
}

/// A frame analyses at least one bar, and bar styles with a nonzero width
/// analyse no more bars than there are columns.
pub proof fn lemma_frame_bars_bounds(style: Style, bars_override: nat, vis: Area)
    ensures
        frame_bars_spec(style, bars_override, vis) >= 1,
        vis.width >= 1 && (style == Style::Bars || style == Style::Mirror || style == Style::BarsWave
            || style == Style::Blocks) ==> frame_bars_spec(style, bars_override, vis) <= vis.width,
{
}

/// The direct style keys follow the key table: digit `d` selects the style at
/// place `d - 1` of the style cycle (1 bars, 2 mirror, 3 wave, 4 spectro,
/// 5 bars+wave, 6 blocks, 7 radial, 8 lissajous, 9 matrix) and `p` selects
/// particles, leaving theme and bar count as they are.
pub proof fn lemma_direct_style_keys(c: Controls, d: char, ctrl: bool)
    ensures
        '1' <= d <= '9' ==> {
            let (s, t, b) = c.after_key(Key::Char(d), ctrl, true);
            &&& crate::styles::style_index(s) == (d as int) - ('1' as int)
            &&& t == c.theme_index()
            &&& b == c.bars_spec()
        },
        c.after_key(Key::Char('1'), ctrl, true).0 == Style::Bars,
        c.after_key(Key::Char('2'), ctrl, true).0 == Style::Mirror,
        c.after_key(Key::Char('3'), ctrl, true).0 == Style::Wave,
        c.after_key(Key::Char('4'), ctrl, true).0 == Style::Spectro,
        c.after_key(Key::Char('5'), ctrl, true).0 == Style::BarsWave,
        c.after_key(Key::Char('6'), ctrl, true).0 == Style::Blocks,
        c.after_key(Key::Char('7'), ctrl, true).0 == Style::Radial,
        c.after_key(Key::Char('8'), ctrl, true).0 == Style::Lissajous,
        c.after_key(Key::Char('9'), ctrl, true).0 == Style::Matrix,
        c.after_key(Key::Char('p'), ctrl, true) == (Style::Particles, c.theme_index(), c.bars_spec()),
{
    if '1' <= d <= '9' {
        assert(d == '1' || d == '2' || d == '3' || d == '4' || d == '5' || d == '6' || d == '7'
            || d == '8' || d == '9') by {
            assert(('1' as int) <= (d as int) <= ('9' as int));
        }
    }
}

/// The bar styles honour the user's bar count: with a count `b` they analyse
/// `b` bars, cut to the width (but never fewer than one); with 0 they fit one
/// bar per column of the area (at least one).
pub proof fn lemma_bar_styles_use_bar_count(style: Style, b: nat, vis: Area)
    requires
        style == Style::Bars || style == Style::Mirror || style == Style::BarsWave || style
            == Style::Blocks,
    ensures
        b == 0 ==> frame_bars_spec(style, b, vis) == (if vis.width >= 1 { vis.width as nat } else { 1 }),
        b > 0 && b <= vis.width ==> frame_bars_spec(style, b, vis) == b,
        b > vis.width ==> frame_bars_spec(style, b, vis) == (if vis.width >= 1 { vis.width as nat } else { 1 }),
{
}

/// The fixed-count styles: waveform and figure styles analyse 64 bars, rain
/// and particles 32, the spectrogram one bar per row but at least 16, and the
/// radial style the user's count held between 24 and 96.
pub proof fn lemma_fixed_count_styles(b: nat, vis: Area)
    ensures
        frame_bars_spec(Style::Wave, b, vis) == 64,
        frame_bars_spec(Style::Lissajous, b, vis) == 64,
        frame_bars_spec(Style::Matrix, b, vis) == 32,
        frame_bars_spec(Style::Particles, b, vis) == 32,
        frame_bars_spec(Style::Spectro, b, vis) >= 16,
        frame_bars_spec(Style::Spectro, b, vis) >= vis.height,
        vis.height >= 16 ==> frame_bars_spec(Style::Spectro, b, vis) == vis.height,
        24 <= frame_bars_spec(Style::Radial, b, vis) <= 96,
        24 <= b <= 96 ==> frame_bars_spec(Style::Radial, b, vis) == b,
        b < 24 ==> frame_bars_spec(Style::Radial, b, vis) == 24,
        b > 96 ==> frame_bars_spec(Style::Radial, b, vis) == 96,
{
}

/// Space, right arrow and tab step the style cycle forward, left arrow and
/// back-tab step it back, and the speed keys leave the state alone while
/// asking for a faster (`+`, `=`) or slower (`-`, `_`) animation.
pub proof fn lemma_cycle_and_speed_keys(c: Controls, ctrl: bool)
    ensures
        ({
            let i = crate::styles::style_index(c.style_spec());
            &&& crate::styles::style_index(c.after_key(Key::Char(' '), ctrl, true).0) == (i + 1) % 10
            &&& crate::styles::style_index(c.after_key(Key::Right, ctrl, true).0) == (i + 1) % 10
            &&& crate::styles::style_index(c.after_key(Key::Tab, ctrl, true).0) == (i + 1) % 10
            &&& crate::styles::style_index(c.after_key(Key::Left, ctrl, true).0) == (i + 9) % 10
            &&& crate::styles::style_index(c.after_key(Key::BackTab, ctrl, true).0) == (i + 9) % 10
        }),
        Controls::outcome_of(Key::Char('+'), ctrl, true) == Outcome::SpeedUp,
        Controls::outcome_of(Key::Char('='), ctrl, true) == Outcome::SpeedUp,
        Controls::outcome_of(Key::Char('-'), ctrl, true) == Outcome::SpeedDown,
        Controls::outcome_of(Key::Char('_'), ctrl, true) == Outcome::SpeedDown,
        c.after_key(Key::Char('+'), ctrl, true) == (c.style_spec(), c.theme_index(), c.bars_spec()),
        c.after_key(Key::Char('-'), ctrl, true) == (c.style_spec(), c.theme_index(), c.bars_spec()),
        Controls::outcome_of(Key::Char('q'), ctrl, true) == Outcome::Quit,
        Controls::outcome_of(Key::Esc, ctrl, true) == Outcome::Quit,
        Controls::outcome_of(Key::Char('c'), true, true) == Outcome::Quit,
        Controls::outcome_of(Key::Char('c'), false, true) == Outcome::Continue,
        Controls::outcome_of(Key::Char('t'), ctrl, false) == Outcome::Skip,
{
    crate::styles::lemma_next_cycles(c.style_spec(), 1);
    let s = c.style_spec();
    assert(crate::styles::style_index(crate::styles::prev_style(s)) == (crate::styles::style_index(s) + 9) % 10);
}

/// The bar-count keys: "more" adds two (starting from at least one) up to
/// 512, "fewer" takes two away down to 2, and "0" asks to fit the width.
pub proof fn lemma_bar_count_keys(c: Controls, ctrl: bool)
    ensures
        ({
            let b = c.bars_spec();
            let base: nat = if b >= 1 { b } else { 1 };
            &&& base + 2 <= 512 ==> c.after_key(Key::Char(']'), ctrl, true).2 == base + 2
            &&& base + 2 > 512 ==> c.after_key(Key::Char(']'), ctrl, true).2 == 512
            &&& b >= 4 ==> c.after_key(Key::Char('['), ctrl, true).2 == b - 2
            &&& b < 4 ==> c.after_key(Key::Char('['), ctrl, true).2 == 2
            &&& c.after_key(Key::Char('0'), ctrl, true).2 == 0
        }),
{
}

} // verus!
