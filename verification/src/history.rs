use vstd::prelude::*;
use crate::audio::{keep_last, keep_newest};

verus! {

/// Most particles the particle style keeps alive; the oldest go first.
pub const MAX_PARTICLES: usize = 3000;

/// The spectrogram's scrolling history: one column per frame, at most as many
/// as the area is wide, oldest first; a change of width starts it afresh.
pub struct Spectrogram<T> {
    columns: Vec<T>,
    width: usize,
}

impl<T> View for Spectrogram<T> {
    type V = Seq<T>;

    closed spec fn view(&self) -> Seq<T> {
        self.columns@
    }
}

impl<T> Spectrogram<T> {
    /// The width the history was last filled for.
    pub closed spec fn width_spec(&self) -> nat {
        self.width as nat
    }

    /// An empty history.
    pub fn new() -> (r: Self)
        ensures
            r@ == Seq::<T>::empty(),
            r.width_spec() == 0,
    {
        Spectrogram { columns: Vec::new(), width: 0 }
    }

    /// Adds the newest column for an area `width` columns wide, first
    /// forgetting everything when the width changed, then dropping the oldest
    /// columns beyond the width.
    pub fn push_column(&mut self, width: usize, column: T)
        ensures
            final(self).width_spec() == width,
            final(self)@ == keep_last(
                (if old(self).width_spec() == width {
                    old(self)@
                } else {
                    Seq::empty()
                }).push(column),
                width as nat,
            ),
    {
        if self.width != width {
            self.width = width;
            self.columns.clear();
        }
        self.columns.push(column);
        keep_newest(&mut self.columns, width);
    }

    /// The columns, oldest first.
    pub fn columns(&self) -> (r: &[T])
        ensures
            r@ == self@,
    {
        self.columns.as_slice()
    }
}

/// Pushing at an unchanged width scrolls: the history becomes the newest
/// `width` columns of the old history followed by the new column, and at a
/// new width it holds the new column alone.
pub proof fn lemma_history_scrolls<T>(before: Seq<T>, column: T, width: nat)
    requires
        width >= 1,
    ensures
        keep_last(before.push(column), width).len() == (if before.len() + 1 <= width {
            before.len() + 1
        } else {
            width
        }),
        keep_last(before.push(column), width) == before.push(column).subrange(
            before.len() + 1 - keep_last(before.push(column), width).len(),
            before.len() + 1 as int,
        ),
        keep_last(Seq::<T>::empty().push(column), width) == seq![column],
{
    let s = before.push(column);
    assert(s.subrange(0, s.len() as int) =~= s);
    assert(Seq::<T>::empty().push(column) =~= seq![column]);
}

/// The history never holds more columns than the area is wide, and the column
/// just pushed is the newest one whenever the area has a column.
pub proof fn lemma_history_bounded<T>(before: Seq<T>, column: T, width: nat)
    ensures
        keep_last(before.push(column), width).len() <= if before.len() + 1 <= width {
            before.len() + 1
        } else {
            width
        },
        width >= 1 ==> keep_last(before.push(column), width).last() == column,
{
}

} // verus!
