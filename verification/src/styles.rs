use vstd::prelude::*;

verus! {

/// Colour themes.
#[derive(Clone, Copy, Debug, PartialEq, Eq, Structural)]
pub enum Theme {
    Rainbow,
    Fire,
    Ocean,
    Mono,
    Magma,
}

/// Visual styles, in the order in which `next` walks them.
#[derive(Clone, Copy, Debug, PartialEq, Eq, Structural)]
pub enum Style {
    Bars,
    Mirror,
    Wave,
    Spectro,
    BarsWave,
    Blocks,
    Radial,
    Lissajous,
    Matrix,
    Particles,
}

/// Number of styles.
pub open spec fn style_count() -> int {
    10
}

/// Position of a style in the cycle.
pub open spec fn style_index(s: Style) -> int {
    match s {
        Style::Bars => 0,
        Style::Mirror => 1,
        Style::Wave => 2,
        Style::Spectro => 3,
        Style::BarsWave => 4,
        Style::Blocks => 5,
        Style::Radial => 6,
        Style::Lissajous => 7,
        Style::Matrix => 8,
        Style::Particles => 9,
    }
}

/// The style at a position of the cycle (positions outside `0..10` give `Bars`).
pub open spec fn style_at(i: int) -> Style {
    if i == 1 {
        Style::Mirror
    } else if i == 2 {
        Style::Wave
    } else if i == 3 {
        Style::Spectro
    } else if i == 4 {
        Style::BarsWave
    } else if i == 5 {
        Style::Blocks
    } else if i == 6 {
        Style::Radial
    } else if i == 7 {
        Style::Lissajous
    } else if i == 8 {
        Style::Matrix
    } else if i == 9 {
        Style::Particles
    } else {
        Style::Bars
    }
}

/// The style after `s`, wrapping from the last to the first.
pub open spec fn next_style(s: Style) -> Style {
    style_at((style_index(s) + 1) % style_count())
}

/// The style before `s`, wrapping from the first to the last.
pub open spec fn prev_style(s: Style) -> Style {
    style_at((style_index(s) + style_count() - 1) % style_count())
}

/// The display name of a style.
pub open spec fn style_name(s: Style) -> Seq<char> {
    match s {
        Style::Bars => "bars"@,
        Style::Mirror => "mirror"@,
        Style::Wave => "wave"@,
        Style::Spectro => "spectro"@,
        Style::BarsWave => "bars+wave"@,
        Style::Blocks => "blocks"@,
        Style::Radial => "radial"@,
        Style::Lissajous => "lissajous"@,
        Style::Matrix => "matrix"@,
        Style::Particles => "particles"@,
    }
}

const ALL_STYLES: [Style; 10] = [
    Style::Bars,
    Style::Mirror,
    Style::Wave,
    Style::Spectro,
    Style::BarsWave,
    Style::Blocks,
    Style::Radial,
    Style::Lissajous,
    Style::Matrix,
    Style::Particles,
];

impl Style {
    /// Every style, in cycle order.
    pub fn all() -> (r: &'static [Style])
        ensures
            r@.len() == style_count(),
            forall|i: int| 0 <= i < style_count() ==> #[trigger] r@[i] == style_at(i),
    {
        let r: &'static [Style] = &ALL_STYLES;
        proof {
            assert(r@ =~= ALL_STYLES@);
        }
        r
    }

    /// The display name of the style.
    pub fn name(&self) -> (r: &'static str)
        ensures
            r@ == style_name(*self),
    {
        match self {
            Style::Bars => "bars",
            Style::Mirror => "mirror",
            Style::Wave => "wave",
            Style::Spectro => "spectro",
            Style::BarsWave => "bars+wave",
            Style::Blocks => "blocks",
            Style::Radial => "radial",
            Style::Lissajous => "lissajous",
            Style::Matrix => "matrix",
            Style::Particles => "particles",
        }
    }

    /// Position of the style in `Style::all()`.
    fn position(self) -> (r: usize)
        ensures
            r == style_index(self),
    {
        let all = Self::all();
        let mut i: usize = 0;
        while i < all.len()
            invariant
                all@.len() == style_count(),
                forall|k: int| 0 <= k < style_count() ==> #[trigger] all@[k] == style_at(k),
                0 <= i <= all@.len(),
                forall|k: int| 0 <= k < i ==> style_at(k) != self,
            decreases all@.len() - i,
        {
            if all[i] == self {
                return i;
            }
            i = i + 1;
        }
        proof {
            let k = style_index(self);
            assert(style_at(k) == self);
        }
        0
    }

    /// The next style in the cycle; the last wraps to the first.
    pub fn next(self) -> (r: Style)
        ensures
            r == next_style(self),
    {
        let all = Self::all();
        let idx = self.position();
        all[(idx + 1) % all.len()]
    }

    /// The previous style in the cycle; the first wraps to the last.
    pub fn prev(self) -> (r: Style)
        ensures
            r == prev_style(self),
    {
        let all = Self::all();
        let idx = self.position();
        all[(idx + all.len() - 1) % all.len()]
    }
}

/// The style reached from `s` after `k` presses of "next style".
pub open spec fn next_style_iter(s: Style, k: nat) -> Style
    decreases k,
{
    if k == 0 {
        s
    } else {
        next_style(next_style_iter(s, (k - 1) as nat))
    }
}

/// The display name of a theme.
pub open spec fn theme_name_spec(t: Theme) -> Seq<char> {
    match t {
        Theme::Rainbow => "rainbow"@,
        Theme::Fire => "fire"@,
        Theme::Ocean => "ocean"@,
        Theme::Mono => "mono"@,
        Theme::Magma => "magma"@,
    }
}

/// The display name of a theme.
pub fn theme_name(t: Theme) -> (r: &'static str)
    ensures
        r@ == theme_name_spec(t),
{
    match t {
        Theme::Rainbow => "rainbow",
        Theme::Fire => "fire",
        Theme::Ocean => "ocean",
        Theme::Mono => "mono",
        Theme::Magma => "magma",
    }
}

/// `Style::all()` lists every style exactly once: each style sits at its own
/// position, and each position holds the style whose position it is.
pub proof fn lemma_all_lists_each_style_once(s: Style, i: int)
    ensures
        0 <= style_index(s) < style_count(),
        style_at(style_index(s)) == s,
        0 <= i < style_count() ==> style_index(style_at(i)) == i,
{
}

/// "Previous style" undoes "next style", and the other way round.
pub proof fn lemma_next_prev_inverse(s: Style)
    ensures
        prev_style(next_style(s)) == s,
        next_style(prev_style(s)) == s,
{
}

/// After `k` presses of "next style" the cycle has advanced by `k` modulo the
/// number of styles; in particular every style is reached, and ten presses
/// come back to the start.
pub proof fn lemma_next_cycles(s: Style, k: nat)
    ensures
        style_index(next_style_iter(s, k)) == (style_index(s) + k) % style_count(),
        next_style_iter(s, 10) == s,
{
    lemma_next_index(s, k);
    lemma_next_index(s, 10);
    let t = next_style_iter(s, 10);
    assert(style_index(t) == style_index(s));
    assert(style_at(style_index(t)) == t);
    assert(style_at(style_index(s)) == s);
}

proof fn lemma_next_index(s: Style, k: nat)
    ensures
        style_index(next_style_iter(s, k)) == (style_index(s) + k) % style_count(),
    decreases k,
{
    if k > 0 {
        lemma_next_index(s, (k - 1) as nat);
        let p = next_style_iter(s, (k - 1) as nat);
        let j = style_index(p);
        assert(0 <= j < 10);
        assert(style_index(next_style(p)) == (j + 1) % 10);
        assert(((style_index(s) + (k - 1)) % 10 + 1) % 10 == (style_index(s) + k) % 10) by {
            vstd::arithmetic::div_mod::lemma_add_mod_noop(style_index(s) + (k - 1), 1, 10);
        }
    }
}

/// Two different styles have different names.
pub proof fn lemma_style_names_distinct(s: Style, t: Style)
    requires
        s != t,
    ensures
        style_name(s) != style_name(t),
{
    reveal_strlit("bars");
    reveal_strlit("mirror");
    reveal_strlit("wave");
    reveal_strlit("spectro");
    reveal_strlit("bars+wave");
    reveal_strlit("blocks");
    reveal_strlit("radial");
    reveal_strlit("lissajous");
    reveal_strlit("matrix");
    reveal_strlit("particles");
    assert(style_name(s).len() != style_name(t).len() || style_name(s)[0] != style_name(t)[0]
        || style_name(s)[1] != style_name(t)[1] || style_name(s)[4] != style_name(t)[4]);
}

/// The styles' names, in cycle order, are bars, mirror, wave, spectro,
/// bars+wave, blocks, radial, lissajous, matrix and particles; the themes'
/// names are their own lower-case names.
pub proof fn lemma_names(i: int)
    ensures
        style_name(style_at(0)) == "bars"@,
        style_name(style_at(1)) == "mirror"@,
        style_name(style_at(2)) == "wave"@,
        style_name(style_at(3)) == "spectro"@,
        style_name(style_at(4)) == "bars+wave"@,
        style_name(style_at(5)) == "blocks"@,
        style_name(style_at(6)) == "radial"@,
        style_name(style_at(7)) == "lissajous"@,
        style_name(style_at(8)) == "matrix"@,
        style_name(style_at(9)) == "particles"@,
        theme_name_spec(Theme::Rainbow) == "rainbow"@,
        theme_name_spec(Theme::Fire) == "fire"@,
        theme_name_spec(Theme::Ocean) == "ocean"@,
        theme_name_spec(Theme::Mono) == "mono"@,
        theme_name_spec(Theme::Magma) == "magma"@,
{
}

} // verus!
