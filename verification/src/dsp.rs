use vstd::prelude::*;

verus! {

/// The spectrum bins `[b0, b1)` that a bar averages when its lower and upper
/// edge frequencies fall in bins `lo` and `hi`: never bin 0 (the DC term), at
/// least one bin, and no bin at or beyond `half`, the number of bins up to the
/// Nyquist frequency.
pub open spec fn band_bins_spec(lo: nat, hi: nat, half: nat) -> (nat, nat) {
    let b0: nat = if lo >= 1 { lo } else { 1 };
    let up: nat = if hi >= b0 + 1 { hi } else { b0 + 1 };
    (b0, if up <= half { up } else { half })
}

/// The bins that one bar of the spectrum averages.
pub fn band_bins(lo: usize, hi: usize, half: usize) -> (r: (usize, usize))
    requires
        lo < usize::MAX,
    ensures
        (r.0 as nat, r.1 as nat) == band_bins_spec(lo as nat, hi as nat, half as nat),
{
    let b0 = if lo >= 1 { lo } else { 1 };
    let up = if hi >= b0 + 1 { hi } else { b0 + 1 };
    (b0, if up <= half { up } else { half })
}

/// A bar whose lower edge lies below the Nyquist bin averages a nonempty run
/// of bins that starts at bin 1 or later and ends by the Nyquist bin.
pub proof fn lemma_band_nonempty(lo: nat, hi: nat, half: nat)
    requires
        lo < half,
        1 < half,
    ensures
        1 <= band_bins_spec(lo, hi, half).0 < band_bins_spec(lo, hi, half).1 <= half,
{
}

/// A bar starts at its lower edge's bin (bin 1 at the least) and, when its
/// upper edge falls in a later bin below the Nyquist bin, ends there.
pub proof fn lemma_band_edges(lo: nat, hi: nat, half: nat)
    ensures
        band_bins_spec(lo, hi, half).0 == (if lo >= 1 { lo } else { 1 }),
        1 <= lo < hi <= half ==> band_bins_spec(lo, hi, half).1 == hi,
        band_bins_spec(lo, hi, half).1 <= half,
{
}

} // verus!
