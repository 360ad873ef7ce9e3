use vstd::prelude::*;

verus! {

/// Sum of a sequence of samples, as a mathematical integer.
pub open spec fn sum_of(s: Seq<u64>) -> int
    decreases s.len(),
{
    if s.len() == 0 {
        0
    } else {
        sum_of(s.drop_last()) + s.last()
    }
}

/// Mean of the held samples, with the divide-by-at-least-one floor: an empty
/// window is treated as one zero-valued sample, so its mean is 0.
pub open spec fn spec_mean(s: Seq<u64>) -> int {
    sum_of(s) / (if s.len() == 0 { 1int } else { s.len() as int })
}

/// What one push does to the window: append while below capacity, otherwise
/// evict exactly the oldest sample and append.
pub open spec fn spec_push(s: Seq<u64>, cap: nat, v: u64) -> Seq<u64> {
    if s.len() < cap {
        s.push(v)
    } else {
        s.subrange(1, s.len() as int).push(v)
    }
}

/// The window that results from pushing the values of `vs`, oldest first,
/// into a window that starts as `s`.
pub open spec fn push_all(s: Seq<u64>, cap: nat, vs: Seq<u64>) -> Seq<u64>
    decreases vs.len(),
{
    if vs.len() == 0 {
        s
    } else {
        spec_push(push_all(s, cap, vs.drop_last()), cap, vs.last())
    }
}

/// The sum of a window is at most its length times the largest sample value.
pub proof fn lemma_sum_bound(s: Seq<u64>)
    ensures
        0 <= sum_of(s) <= s.len() * (u64::MAX as int),
    decreases s.len(),
{
    if s.len() > 0 {
        lemma_sum_bound(s.drop_last());
    }
}

/// Rolling mean over the most recent samples, a fixed-capacity circular
/// buffer with a write cursor and a count of valid samples. Samples are
/// durations in integer microseconds.
pub struct RollingAvg {
    buf: Vec<u64>,
    next: usize,
    count: usize,
}

impl RollingAvg {
    /// Window size, fixed at construction.
    pub closed spec fn capacity(self) -> nat {
        self.buf@.len()
    }

    /// Buffer well-formedness: before the window first fills, the write
    /// cursor equals the sample count, so the valid samples are a prefix.
    pub closed spec fn wf(self) -> bool {
        &&& self.capacity() >= 1
        &&& self.count <= self.capacity()
        &&& self.next < self.capacity()
        &&& (self.count < self.capacity() ==> self.next == self.count)
    }

    /// Physical slot of the `j`-th oldest held sample.
    closed spec fn slot(self, j: int) -> int {
        let start = if self.next >= self.count {
            self.next - self.count
        } else {
            self.next + self.capacity() - self.count
        };
        if start + j < self.capacity() {
            start + j
        } else {
            start + j - self.capacity()
        }
    }

    /// The held samples, oldest first.
    pub closed spec fn samples(self) -> Seq<u64> {
        Seq::new(self.count as nat, |j: int| self.buf@[self.slot(j)])
    }

    pub fn new(capacity: usize) -> (r: RollingAvg)
        requires
            capacity >= 1,
        ensures
            r.wf(),
            r.capacity() == capacity,
            r.samples() == Seq::<u64>::empty(),
    {
        let mut buf: Vec<u64> = Vec::new();
        let mut i: usize = 0;
        while i < capacity
            invariant
                buf@.len() == i,
                i <= capacity,
            decreases capacity - i,
        {
            buf.push(0);
            i += 1;
        }
        let r = RollingAvg { buf, next: 0, count: 0 };
        proof {
            assert(r.samples() =~= Seq::<u64>::empty());
        }
        r
    }

    /// Clear back to the empty window; the capacity is kept.
    pub fn reset(&mut self)
        requires
            old(self).wf(),
        ensures
            final(self).wf(),
            final(self).capacity() == old(self).capacity(),
            final(self).samples() == Seq::<u64>::empty(),
    {
        self.next = 0;
        self.count = 0;
        let cap = self.buf.len();
        let mut i: usize = 0;
        while i < cap
            invariant
                self.buf@.len() == cap,
                self.next == 0,
                self.count == 0,
                i <= cap,
            decreases cap - i,
        {
            self.buf[i] = 0;
            i += 1;
        }
        proof {
            assert(self.samples() =~= Seq::<u64>::empty());
        }
    }

    /// Append a sample, overwriting the oldest one once capacity is reached.
    pub fn push(&mut self, v: u64)
        requires
            old(self).wf(),
        ensures
            final(self).wf(),
            final(self).capacity() == old(self).capacity(),
            final(self).samples() == spec_push(old(self).samples(), old(self).capacity(), v),
    {
        let cap = self.buf.len();
        self.buf[self.next] = v;
        self.next = if self.next + 1 == cap {
            0
        } else {
            self.next + 1
        };
        if self.count < cap {
            self.count = self.count + 1;
        }
        proof {
            assert(self.samples() =~= spec_push(
                old(self).samples(),
                old(self).capacity(),
                v,
            ));
        }
    }

    /// Mean of the held samples, floored to at least one sample so that the
    /// empty window yields 0 rather than a division by zero.
    pub fn mean(&self) -> (r: u64)
        requires
            self.wf(),
        ensures
            r == spec_mean(self.samples()),
    {
        let cap = self.buf.len();
        let mut acc: u128 = 0;
        let mut j: usize = 0;
        while j < self.count
            invariant
                self.wf(),
                cap == self.capacity(),
                j <= self.count,
                acc == sum_of(self.samples().take(j as int)),
                acc <= (j as int) * (u64::MAX as int),
            decreases self.count - j,
        {
            let start = if self.next >= self.count {
                self.next - self.count
            } else {
                self.next + (cap - self.count)
            };
            let idx = if j < cap - start {
                start + j
            } else {
                j - (cap - start)
            };
            proof {
                assert(idx == self.slot(j as int));
                assert(self.samples().take(j as int + 1).drop_last() =~= self.samples().take(
                    j as int,
                ));
                assert(self.samples().take(j as int + 1).last() == self.samples()[j as int]);
            }
            acc = acc + self.buf[idx] as u128;
            j += 1;
        }
        proof {
            assert(self.samples().take(self.count as int) =~= self.samples());
            lemma_sum_bound(self.samples());
        }
        let n: usize = if self.count == 0 {
            1
        } else {
            self.count
        };
        let q: u128 = acc / (n as u128);
        proof {
            if self.count > 0 {
                vstd::arithmetic::div_mod::lemma_div_is_ordered(
                    acc as int,
                    (n as int) * (u64::MAX as int),
                    n as int,
                );
                vstd::arithmetic::div_mod::lemma_div_by_multiple(u64::MAX as int, n as int);
            }
            assert(q <= u64::MAX);
        }
        q as u64
    }
}

impl Default for RollingAvg {
    /// The window size the benchmark uses when none is given.
    fn default() -> (r: RollingAvg)
        ensures
            r.wf(),
            r.capacity() == 120,
            r.samples() == Seq::<u64>::empty(),
    {
        RollingAvg::new(120)
    }
}

/// Law: a freshly constructed or reset window has mean 0, the
/// one-zero-sample floor of the empty state.
pub proof fn lemma_mean_empty()
    ensures
        spec_mean(Seq::<u64>::empty()) == 0,
{
}

/// Law: pushing a single sample into an empty window yields that sample as
/// the mean.
pub proof fn lemma_mean_single(v: u64, cap: nat)
    requires
        cap >= 1,
    ensures
        spec_push(Seq::<u64>::empty(), cap, v) == seq![v],
        spec_mean(seq![v]) == v,
{
    assert(spec_push(Seq::<u64>::empty(), cap, v) =~= seq![v]);
    let one = seq![v];
    assert(one.len() == 1);
    assert(one.last() == v);
    assert(one.drop_last() =~= Seq::<u64>::empty());
    assert(sum_of(one.drop_last()) == 0);
    assert(sum_of(one) == sum_of(one.drop_last()) + one.last());
    assert(sum_of(one) == v);
    assert(spec_mean(one) == sum_of(one) / 1);
}

/// Law: a push into a full window evicts exactly the oldest sample.
pub proof fn lemma_push_evicts_oldest(s: Seq<u64>, cap: nat, v: u64)
    requires
        s.len() == cap,
        cap >= 1,
    ensures
        spec_push(s, cap, v) == s.subrange(1, cap as int).push(v),
{
}

/// Law: pushing `cap + 1` values into an empty window of capacity `cap`
/// evicts exactly the first of them — the mean is then the mean of the
/// values from the second on, not of the first `cap`.
pub proof fn lemma_capacity_plus_one_evicts_first(cap: nat, vs: Seq<u64>)
    requires
        cap >= 1,
        vs.len() == cap + 1,
    ensures
        push_all(Seq::<u64>::empty(), cap, vs) == vs.subrange(1, vs.len() as int),
        spec_mean(push_all(Seq::<u64>::empty(), cap, vs)) == sum_of(
            vs.subrange(1, vs.len() as int),
        ) / (cap as int),
{
    lemma_push_all_window(cap, vs);
    assert(vs.subrange(1, vs.len() as int).len() == cap);
}

/// Law: pushing any run of values into an empty window keeps exactly the
/// most recent `cap` of them, oldest first.
pub proof fn lemma_push_all_window(cap: nat, vs: Seq<u64>)
    requires
        cap >= 1,
    ensures
        push_all(Seq::<u64>::empty(), cap, vs) =~= vs.subrange(
            if vs.len() <= cap { 0 } else { vs.len() - cap },
            vs.len() as int,
        ),
    decreases vs.len(),
{
    if vs.len() == 0 {
    } else {
        let prior = vs.drop_last();
        lemma_push_all_window(cap, prior);
        let lo_prior: int = if prior.len() <= cap { 0 } else { prior.len() - cap };
        assert(prior.subrange(lo_prior, prior.len() as int) =~= vs.subrange(
            lo_prior,
            vs.len() - 1,
        ));
    }
}

} // verus!
