use vstd::prelude::*;

verus! {

/// Seed of the render state's generator; also what a zero state is replaced by.
pub const RNG_SEED: u64 = 0x9E37_79B9_7F4A_7C15;

/// Thai consonants and digits that the matrix rain draws from.
pub const MATRIX_CHARS: [char; 51] = [
    '\u{0E01}', '\u{0E02}', '\u{0E04}', '\u{0E06}', '\u{0E07}', '\u{0E08}', '\u{0E09}', '\u{0E0A}',
    '\u{0E0B}', '\u{0E0D}', '\u{0E0E}', '\u{0E0F}', '\u{0E10}', '\u{0E11}', '\u{0E12}', '\u{0E13}',
    '\u{0E14}', '\u{0E15}', '\u{0E16}', '\u{0E17}', '\u{0E18}', '\u{0E19}', '\u{0E1A}', '\u{0E1B}',
    '\u{0E1C}', '\u{0E1D}', '\u{0E1E}', '\u{0E1F}', '\u{0E20}', '\u{0E21}', '\u{0E22}', '\u{0E23}',
    '\u{0E25}', '\u{0E27}', '\u{0E28}', '\u{0E29}', '\u{0E2A}', '\u{0E2B}', '\u{0E2C}', '\u{0E2D}',
    '\u{0E2E}', '\u{0E50}', '\u{0E51}', '\u{0E52}', '\u{0E53}', '\u{0E54}', '\u{0E55}', '\u{0E56}',
    '\u{0E57}', '\u{0E58}', '\u{0E59}',
];

/// One xorshift64 step (shifts 13, 7, 17).
pub open spec fn xorshift(x: u64) -> u64 {
    let a = x ^ (x << 13u64);
    let b = a ^ (a >> 7u64);
    b ^ (b << 17u64)
}

/// The state the generator steps from: a zero state is replaced by the seed.
pub open spec fn seeded(x: u64) -> u64 {
    if x == 0 {
        RNG_SEED
    } else {
        x
    }
}

/// The value (and new state) that one call of `next_u64` gives on `state`.
pub open spec fn next_u64_spec(state: u64) -> u64 {
    xorshift(seeded(state))
}

/// The character that `matrix_char` draws from a generator output.
pub open spec fn matrix_char_spec(draw: u64) -> char {
    MATRIX_CHARS[((draw as usize) as int) % 51]
}

/// xorshift never maps a nonzero word to zero.
pub proof fn lemma_xorshift_nonzero(x: u64)
    requires
        x != 0,
    ensures
        xorshift(x) != 0,
{
    let a = x ^ (x << 13u64);
    assert(a != 0) by (bit_vector)
        requires
            x != 0,
            a == x ^ (x << 13u64),
    ;
    let b = a ^ (a >> 7u64);
    assert(b != 0) by (bit_vector)
        requires
            a != 0,
            b == a ^ (a >> 7u64),
    ;
    let c = b ^ (b << 17u64);
    assert(c != 0) by (bit_vector)
        requires
            b != 0,
            c == b ^ (b << 17u64),
    ;
}

/// Advances the xorshift64 state and returns the new state.
pub fn next_u64(state: &mut u64) -> (r: u64)
    ensures
        r == next_u64_spec(*old(state)),
        *final(state) == r,
        r != 0,
{
    let mut x = *state;
    if x == 0 {
        x = RNG_SEED;
    }
    proof {
        lemma_xorshift_nonzero(x);
    }
    x ^= x << 13u64;
    x ^= x >> 7u64;
    x ^= x << 17u64;
    *state = x;
    x
}

/// Draws one rain character, advancing the generator once.
pub fn matrix_char(rng: &mut u64) -> (r: char)
    ensures
        *final(rng) == next_u64_spec(*old(rng)),
        r == matrix_char_spec(*final(rng)),
{
    let draw = next_u64(rng);
    MATRIX_CHARS[(draw as usize) % MATRIX_CHARS.len()]
}

/// The generator's state never returns to zero: whatever the state, the next
/// one is nonzero, and from a nonzero state the seed substitution does not apply.
pub proof fn lemma_state_stays_nonzero(state: u64)
    ensures
        next_u64_spec(state) != 0,
        state != 0 ==> next_u64_spec(state) == xorshift(state),
{
    lemma_xorshift_nonzero(seeded(state));
}

/// Every rain character is one of `MATRIX_CHARS`.
pub proof fn lemma_matrix_char_in_set(draw: u64)
    ensures
        exists|i: int| 0 <= i < 51 && MATRIX_CHARS[i] == #[trigger] matrix_char_spec(draw),
{
    let i = ((draw as usize) as int) % 51;
    assert(0 <= i < 51);
    assert(MATRIX_CHARS[i] == matrix_char_spec(draw));
}

/// Every rain character can be drawn: a generator output below 51 draws the
/// character at that place.
pub proof fn lemma_every_matrix_char_reachable(i: u64)
    requires
        i < 51,
    ensures
        matrix_char_spec(i) == MATRIX_CHARS[i as int],
{
    assert((i as usize) as int == i as int);
}

} // verus!
