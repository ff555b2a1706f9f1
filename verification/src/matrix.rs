use vstd::prelude::*;

verus! {

/// The columns `0..width` that are not in `occupied`, in increasing order.
pub open spec fn free_columns_spec(width: nat, occupied: Seq<u16>) -> Seq<u16>
    decreases width,
{
    if width == 0 {
        Seq::empty()
    } else {
        let rest = free_columns_spec((width - 1) as nat, occupied);
        let c = (width - 1) as u16;
        if occupied.contains(c) {
            rest
        } else {
            rest.push(c)
        }
    }
}

/// Columns of a `width`-column area that no rain drop occupies, left to right.
pub fn free_columns(width: u16, occupied: &[u16]) -> (r: Vec<u16>)
    ensures
        r@ == free_columns_spec(width as nat, occupied@),
{
    let mut r: Vec<u16> = Vec::new();
    let mut c: u16 = 0;
    while c < width
        invariant
            0 <= c <= width,
            r@ == free_columns_spec(c as nat, occupied@),
        decreases width - c,
    {
        let mut taken = false;
        let mut k: usize = 0;
        while k < occupied.len()
            invariant
                0 <= k <= occupied@.len(),
                taken == exists|j: int| 0 <= j < k && occupied@[j] == c,
            decreases occupied@.len() - k,
        {
            if occupied[k] == c {
                taken = true;
            }
            k = k + 1;
        }
        proof {
            assert(taken == occupied@.contains(c));
            assert((((c + 1) as nat - 1) as nat) == c as nat);
        }
        if !taken {
            r.push(c);
        }
        c = c + 1;
    }
    r
}

/// The free columns are exactly the columns of the area that no drop
/// occupies, each once and in increasing order.
pub proof fn lemma_free_columns(width: nat, occupied: Seq<u16>)
    requires
        width <= 0x1_0000,
    ensures
        forall|c: u16|
            #![trigger free_columns_spec(width, occupied).contains(c)]
            free_columns_spec(width, occupied).contains(c) <==> (c < width && !occupied.contains(c)),
        forall|i: int, j: int|
            0 <= i < j < free_columns_spec(width, occupied).len() ==> free_columns_spec(
                width,
                occupied,
            )[i] < free_columns_spec(width, occupied)[j],
        forall|i: int|
            0 <= i < free_columns_spec(width, occupied).len() ==> free_columns_spec(
                width,
                occupied,
            )[i] < width,
    decreases width,
{
    if width > 0 {
        let w1 = (width - 1) as nat;
        lemma_free_columns(w1, occupied);
        let rest = free_columns_spec(w1, occupied);
        let c = w1 as u16;
        assert(c == w1);
        if !occupied.contains(c) {
            let s = rest.push(c);
            assert forall|d: u16| #[trigger] s.contains(d) <==> (d < width && !occupied.contains(d)) by {
                if s.contains(d) {
                    let k = choose|k: int| 0 <= k < s.len() && s[k] == d;
                    if k < rest.len() {
                        assert(rest.contains(d));
                    }
                }
                if d < width && !occupied.contains(d) {
                    if d < w1 {
                        assert(rest.contains(d));
                        let k = choose|k: int| 0 <= k < rest.len() && rest[k] == d;
                        assert(s[k] == d);
                    } else {
                        assert(s[rest.len() as int] == d);
                    }
                }
            }
        }
    }
}

/// Whether no column occurs twice.
pub open spec fn distinct_columns(cols: Seq<u16>) -> bool {
    forall|i: int, j: int| 0 <= i < j < cols.len() ==> cols[i] != cols[j]
}

/// The column a spawn attempt lands on: a free column picked by the
/// generator's draw, taken only when the attempt is accepted and no drop
/// already falls in that column.
pub open spec fn spawn_column_spec(free: Seq<u16>, drops: Seq<u16>, draw: u64, accept: bool) -> Option<
    u16,
> {
    let col = free[((draw as usize) as int) % (free.len() as int)];
    if accept && !drops.contains(col) {
        Some(col)
    } else {
        None
    }
}

/// One spawn attempt of the rain: `draw` is the generator output that picks
/// among the free columns, `accept` whether the attempt passed its spawn
/// chance, and `drops` the columns of the drops already falling.
pub fn spawn_column(free: &[u16], drops: &[u16], draw: u64, accept: bool) -> (r: Option<u16>)
    requires
        free@.len() > 0,
    ensures
        r == spawn_column_spec(free@, drops@, draw, accept),
{
    let idx = (draw as usize) % free.len();
    let col = free[idx];
    assert(col == free@[((draw as usize) as int) % (free@.len() as int)]);
    if !accept {
        return None;
    }
    let mut k: usize = 0;
    while k < drops.len()
        invariant
            0 <= k <= drops@.len(),
            accept,
            free@.len() > 0,
            col == free@[((draw as usize) as int) % (free@.len() as int)],
            forall|j: int| 0 <= j < k ==> drops@[j] != col,
        decreases drops@.len() - k,
    {
        if drops[k] == col {
            proof {
                assert(drops@[k as int] == col);
                assert(drops@.contains(col));
            }
            return None;
        }
        k = k + 1;
    }
    Some(col)
}

/// One drop per column: a spawn never lands in a column that a drop already
/// occupies, so adding the spawned drop keeps the drops' columns distinct.
pub proof fn lemma_spawn_keeps_one_drop_per_column(
    free: Seq<u16>,
    drops: Seq<u16>,
    draw: u64,
    accept: bool,
)
    requires
        free.len() > 0,
        distinct_columns(drops),
    ensures
        spawn_column_spec(free, drops, draw, accept) matches Some(c) ==> !drops.contains(c)
            && distinct_columns(drops.push(c)),
{
    if let Some(c) = spawn_column_spec(free, drops, draw, accept) {
        let s = drops.push(c);
        assert forall|i: int, j: int| 0 <= i < j < s.len() implies s[i] != s[j] by {
            if j == drops.len() {
                assert(s[i] == drops[i]);
            }
        }
    }
}

/// Every free column can start rain: a draw below the number of free columns
/// picks the free column at that place, and an accepted attempt on a column
/// no drop occupies spawns there.  A spawn is always a free column that no
/// drop occupies, and only accepted attempts spawn.
pub proof fn lemma_spawn_reaches_every_free_column(
    free: Seq<u16>,
    drops: Seq<u16>,
    draw: u64,
    accept: bool,
)
    requires
        free.len() > 0,
        free.len() <= usize::MAX,
    ensures
        draw < free.len() && !drops.contains(free[draw as int]) ==> spawn_column_spec(
            free,
            drops,
            draw,
            true,
        ) == Some(free[draw as int]),
        spawn_column_spec(free, drops, draw, accept) matches Some(c) ==> accept && free.contains(c)
            && !drops.contains(c),
        !accept ==> spawn_column_spec(free, drops, draw, accept) is None,
{
    if draw < free.len() {
        assert((draw as usize) as int == draw as int);
        assert((draw as int) % (free.len() as int) == draw as int) by (nonlinear_arith)
            requires
                0 <= draw < free.len(),
        ;
    }
    let i = ((draw as usize) as int) % (free.len() as int);
    assert(0 <= i < free.len());
    if let Some(c) = spawn_column_spec(free, drops, draw, accept) {
        assert(free[i] == c);
    }
}

/// Dropping finished drops keeps the columns distinct: any subsequence of
/// distinct columns is distinct.
pub proof fn lemma_subsequence_distinct(cols: Seq<u16>, keep: Seq<int>)
    requires
        distinct_columns(cols),
        forall|i: int, j: int| 0 <= i < j < keep.len() ==> keep[i] < keep[j],
        forall|i: int| 0 <= i < keep.len() ==> 0 <= #[trigger] keep[i] < cols.len(),
    ensures
        distinct_columns(keep.map_values(|i: int| cols[i])),
{
}

} // verus!
