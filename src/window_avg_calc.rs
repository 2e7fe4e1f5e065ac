use crate::error::Error;
use std::collections::VecDeque;
use vstd::prelude::*;

verus! {

/// Sum of a sequence of samples.
pub open spec fn seq_sum(s: Seq<u64>) -> int
    decreases s.len(),
{
    if s.len() == 0 {
        0
    } else {
        seq_sum(s.drop_last()) + s.last()
    }
}

/// Arithmetic mean of a sequence of samples, rounded down; zero when empty.
pub open spec fn seq_mean(s: Seq<u64>) -> int {
    if s.len() == 0 {
        0
    } else {
        seq_sum(s) / (s.len() as int)
    }
}

/// The window after one more sample, with the oldest evicted once `cap` are held.
pub open spec fn window_after_push(s: Seq<u64>, cap: nat, x: u64) -> Seq<u64> {
    if s.len() >= cap {
        s.drop_first().push(x)
    } else {
        s.push(x)
    }
}

/// The window after pushing each of `xs` in turn.
pub open spec fn window_after_pushes(s: Seq<u64>, cap: nat, xs: Seq<u64>) -> Seq<u64>
    decreases xs.len(),
{
    if xs.len() == 0 {
        s
    } else {
        window_after_push(window_after_pushes(s, cap, xs.drop_last()), cap, xs.last())
    }
}

pub proof fn lemma_seq_sum_first(s: Seq<u64>)
    requires
        s.len() > 0,
    ensures
        seq_sum(s) == s[0] + seq_sum(s.drop_first()),
    decreases s.len(),
{
    if s.len() > 1 {
        lemma_seq_sum_first(s.drop_last());
        assert(s.drop_last().drop_first() =~= s.drop_first().drop_last());
    } else {
        assert(s.drop_last() =~= Seq::<u64>::empty());
        assert(s.drop_first() =~= Seq::<u64>::empty());
    }
}

pub proof fn lemma_seq_sum_bounds(s: Seq<u64>)
    ensures
        0 <= seq_sum(s) <= s.len() * (u64::MAX as int),
    decreases s.len(),
{
    if s.len() > 0 {
        lemma_seq_sum_bounds(s.drop_last());
    }
}

/// A moving average over the most recent `window_size` samples, in
/// microseconds, with a running sum kept up to date on each push.
pub struct WindowAvgCalc {
    acc: u128,
    window_size: usize,
    window: VecDeque<u64>,
    forced: Option<u64>,
}

impl WindowAvgCalc {
    /// The samples in the window, oldest first.
    pub closed spec fn samples(&self) -> Seq<u64> {
        self.window@
    }

    /// How many samples the window holds at most.
    pub closed spec fn capacity(&self) -> nat {
        self.window_size as nat
    }

    /// A value that overrides the reported average until the next push.
    pub closed spec fn forced(&self) -> Option<u64> {
        self.forced
    }

    pub closed spec fn wf(&self) -> bool {
        &&& self.window_size > 0
        &&& self.window@.len() <= self.window_size
        &&& self.acc as int == seq_sum(self.window@)
    }

    /// The average that `get_avg` reports.
    pub open spec fn spec_avg(&self) -> int {
        match self.forced() {
            Some(v) => v as int,
            None => seq_mean(self.samples()),
        }
    }

    pub fn new(window_size: usize) -> (r: Result<Self, Error>)
        ensures
            window_size == 0 <==> r is Err,
            r matches Err(e) ==> *e.repr is WrongArgument,
            r matches Ok(c) ==> {
                &&& c.wf()
                &&& c.capacity() == window_size
                &&& c.samples() == Seq::<u64>::empty()
                &&& c.forced() is None
            },
    {
        if window_size == 0 {
            Err(Error::new_wrong_argument(String::from_str("Window size must be greater than 0")))
        } else {
            Ok(WindowAvgCalc {
                acc: 0,
                window_size,
                window: VecDeque::with_capacity(window_size),
                forced: None,
            })
        }
    }

    pub fn push(&mut self, num: u64)
        requires
            old(self).wf(),
        ensures
            final(self).wf(),
            final(self).capacity() == old(self).capacity(),
            final(self).samples() == window_after_push(old(self).samples(), old(self).capacity(), num),
            final(self).forced() is None,
    {
        proof {
            lemma_seq_sum_bounds(self.window@);
        }
        if self.window.len() >= self.window_size {
            let ghost before = self.window@;
            let evicted = self.window.pop_front();
            proof {
                lemma_seq_sum_first(before);
                lemma_seq_sum_bounds(before.drop_first());
            }
            match evicted {
                Some(v) => {
                    self.acc = self.acc - v as u128;
                },
                None => {},
            }
        }
        proof {
            lemma_seq_sum_bounds(self.window@);
            assert(self.window@.len() < self.window_size);
        }
        let ghost before = self.window@;
        self.window.push_back(num);
        assert(self.window@.drop_last() =~= before);
        proof {
            let k = before.len() + 1;
            assert(k * (u64::MAX as int) < u128::MAX) by (nonlinear_arith)
                requires
                    0 < k <= 0xffff_ffff_ffff_ffff,
            ;
        }
        self.acc = self.acc + num as u128;
        self.forced = None;
    }

    /// Overrides the reported average with `value` until the next push,
    /// leaving the window itself unchanged.
    pub fn set_to(&mut self, value: u64)
        requires
            old(self).wf(),
        ensures
            final(self).wf(),
            final(self).capacity() == old(self).capacity(),
            final(self).samples() == old(self).samples(),
            final(self).forced() == Some(value),
    {
        self.forced = Some(value);
    }

    pub fn get_avg(&self) -> (r: u64)
        requires
            self.wf(),
        ensures
            r as int == self.spec_avg(),
    {
        match self.forced {
            Some(v) => v,
            None => {
                let n = self.window.len();
                if n == 0 {
                    0
                } else {
                    proof {
                        lemma_seq_sum_bounds(self.window@);
                        let s = seq_sum(self.window@);
                        let m = n as int;
                        assert(s / m <= u64::MAX) by (nonlinear_arith)
                            requires
                                0 <= s <= m * (u64::MAX as int),
                                m > 0,
                        ;
                    }
                    (self.acc / n as u128) as u64
                }
            }
        }
    }
}

/// From an empty window of capacity `cap`, pushing `xs` leaves exactly the
/// last `cap` of them (all of them when there are at most `cap`), so the
/// average reported afterwards is the mean of those most recent samples.
pub proof fn lemma_window_keeps_most_recent(cap: nat, xs: Seq<u64>)
    requires
        cap > 0,
    ensures
        window_after_pushes(Seq::empty(), cap, xs) == xs.subrange(
            if xs.len() > cap { xs.len() - cap } else { 0 },
            xs.len() as int,
        ),
        xs.len() <= cap ==> window_after_pushes(Seq::empty(), cap, xs) == xs,
        seq_mean(window_after_pushes(Seq::empty(), cap, xs)) == seq_mean(
            xs.subrange(if xs.len() > cap { xs.len() - cap } else { 0 }, xs.len() as int),
        ),
    decreases xs.len(),
{
    if xs.len() > 0 {
        let p = xs.drop_last();
        lemma_window_keeps_most_recent(cap, p);
        let start_p: int = if p.len() > cap { p.len() - cap } else { 0 };
        let start: int = if xs.len() > cap { xs.len() - cap } else { 0 };
        let w = p.subrange(start_p, p.len() as int);
        if w.len() >= cap {
            assert(w.drop_first().push(xs.last()) =~= xs.subrange(start, xs.len() as int));
        } else {
            assert(w.push(xs.last()) =~= xs.subrange(start, xs.len() as int));
        }
    } else {
        assert(xs.subrange(0, 0) =~= Seq::<u64>::empty());
    }
    assert(xs.subrange(0, xs.len() as int) =~= xs);
}

} // verus!
