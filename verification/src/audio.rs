use vstd::prelude::*;

verus! {

/// The last `cap` items of `s`, or all of `s` when it is no longer than that.
pub open spec fn keep_last<T>(s: Seq<T>, cap: nat) -> Seq<T> {
    if s.len() > cap {
        s.subrange(s.len() - cap, s.len() as int)
    } else {
        s
    }
}

/// What a snapshot of `n` samples reads from the stored samples `s`: the
/// newest `n` of them, with `pad` in front where fewer than `n` are stored.
pub open spec fn snapshot_spec<T>(s: Seq<T>, n: nat, pad: T) -> Seq<T> {
    if s.len() >= n {
        s.subrange(s.len() - n, s.len() as int)
    } else {
        Seq::new((n - s.len()) as nat, |i: int| pad) + s
    }
}

/// Drops the oldest items of `v` until at most `max_len` remain.
pub fn keep_newest<T>(v: &mut Vec<T>, max_len: usize)
    ensures
        final(v)@ == keep_last(old(v)@, max_len as nat),
{
    let len = v.len();
    if len > max_len {
        let tail = v.split_off(len - max_len);
        *v = tail;
    }
}

/// The most recent samples of an input, at most `capacity` of them, oldest first.
pub struct AudioBuffer<T> {
    data: Vec<T>,
    capacity: usize,
    silence: T,
}

impl<T> View for AudioBuffer<T> {
    type V = Seq<T>;

    closed spec fn view(&self) -> Seq<T> {
        self.data@
    }
}

impl<T> AudioBuffer<T> {
    #[verifier::type_invariant]
    spec fn inv(self) -> bool {
        self.data@.len() <= self.capacity
    }

    /// Most samples the buffer keeps.
    pub closed spec fn cap(&self) -> nat {
        self.capacity as nat
    }

    /// The sample that a snapshot pads with.
    pub closed spec fn pad(&self) -> T {
        self.silence
    }
}

impl<T: Copy> AudioBuffer<T> {

    /// An empty buffer that keeps up to `capacity` samples and pads with `silence`.
    pub fn new(capacity: usize, silence: T) -> (r: Self)
        ensures
            r@ == Seq::<T>::empty(),
            r.cap() == capacity,
            r.pad() == silence,
    {
        AudioBuffer { data: Vec::with_capacity(capacity), capacity, silence }
    }

    /// Appends `samples`, then forgets the oldest samples beyond the capacity.
    pub fn push(&mut self, samples: &[T])
        ensures
            final(self)@ == keep_last(old(self)@ + samples@, old(self).cap()),
            final(self).cap() == old(self).cap(),
            final(self).pad() == old(self).pad(),
    {
        let mut data = Vec::new();
        std::mem::swap(&mut data, &mut self.data);
        let ghost start = data@;
        let mut i: usize = 0;
        while i < samples.len()
            invariant
                0 <= i <= samples@.len(),
                data@ == start + samples@.subrange(0, i as int),
            decreases samples@.len() - i,
        {
            data.push(samples[i]);
            i = i + 1;
            proof {
                assert(samples@.subrange(0, i as int) == samples@.subrange(0, i - 1).push(
                    samples@[i - 1],
                ));
            }
        }
        assert(samples@.subrange(0, samples@.len() as int) == samples@);
        keep_newest(&mut data, self.capacity);
        self.data = data;
    }

    /// The newest `n` samples, oldest first, padded in front with the silence
    /// sample when fewer than `n` are stored.
    pub fn snapshot(&self, n: usize) -> (r: Vec<T>)
        ensures
            r@ == snapshot_spec(self@, n as nat, self.pad()),
    {
        let len = self.data.len();
        let mut v: Vec<T> = Vec::with_capacity(n);
        if len >= n {
            let mut i: usize = len - n;
            while i < len
                invariant
                    len == self.data@.len(),
                    n <= len,
                    len - n <= i <= len,
                    v@ == self.data@.subrange(len - n, i as int),
                decreases len - i,
            {
                v.push(self.data[i]);
                i = i + 1;
                proof {
                    assert(self.data@.subrange(len - n, i as int) =~= self.data@.subrange(
                        len - n,
                        i - 1,
                    ).push(self.data@[i - 1]));
                }
            }
        } else {
            let mut k: usize = 0;
            while k < n - len
                invariant
                    len < n,
                    0 <= k <= n - len,
                    v@ == Seq::new(k as nat, |j: int| self.silence),
                decreases n - len - k,
            {
                v.push(self.silence);
                k = k + 1;
                proof {
                    assert(v@ =~= Seq::new(k as nat, |j: int| self.silence));
                }
            }
            let ghost pads = v@;
            let mut i: usize = 0;
            while i < len
                invariant
                    len == self.data@.len(),
                    0 <= i <= len,
                    v@ == pads + self.data@.subrange(0, i as int),
                decreases len - i,
            {
                v.push(self.data[i]);
                i = i + 1;
                proof {
                    assert(self.data@.subrange(0, i as int) == self.data@.subrange(0, i - 1).push(
                        self.data@[i - 1],
                    ));
                }
            }
            assert(self.data@.subrange(0, len as int) == self.data@);
        }
        v
    }
}

/// A push keeps the newest samples: the buffer then holds
/// `min(old + pushed, capacity)` samples, which are the tail of the old
/// contents followed by the pushed ones.
pub proof fn lemma_push_keeps_newest<T>(old: Seq<T>, samples: Seq<T>, cap: nat)
    ensures
        keep_last(old + samples, cap).len() == if old.len() + samples.len() > cap {
            cap
        } else {
            old.len() + samples.len()
        },
        (old + samples).subrange(
            (old + samples).len() - keep_last(old + samples, cap).len(),
            (old + samples).len() as int,
        ) == keep_last(old + samples, cap),
{
    let s = old + samples;
    assert(s.subrange(0, s.len() as int) =~= s);
}

/// A snapshot always has exactly the requested number of samples.
pub proof fn lemma_snapshot_len<T>(s: Seq<T>, n: nat, pad: T)
    ensures
        snapshot_spec(s, n, pad).len() == n,
{
}

/// Reading back what was written: after pushing at least `n` samples into a
/// buffer of capacity at least `n`, a snapshot of `n` gives the last `n`
/// samples pushed, whatever the buffer held before.
pub proof fn lemma_snapshot_after_push<T>(old: Seq<T>, samples: Seq<T>, cap: nat, n: nat, pad: T)
    requires
        n <= cap,
        n <= samples.len(),
    ensures
        snapshot_spec(keep_last(old + samples, cap), n, pad) == samples.subrange(
            samples.len() - n,
            samples.len() as int,
        ),
{
    let s = old + samples;
    let k = keep_last(s, cap);
    assert(k.len() >= n);
    assert(snapshot_spec(k, n, pad) =~= samples.subrange(samples.len() - n, samples.len() as int));
}

/// A buffer that has received nothing yet reads as silence.
pub proof fn lemma_empty_snapshot_is_silence<T>(n: nat, pad: T)
    ensures
        snapshot_spec(Seq::<T>::empty(), n, pad) == Seq::new(n, |i: int| pad),
{
    assert(snapshot_spec(Seq::<T>::empty(), n, pad) =~= Seq::new(n, |i: int| pad));
}

} // verus!
