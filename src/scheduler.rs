use vstd::prelude::*;

verus! {

/// Round-robin selection over the corpus: entries are visited in insertion
/// order, wrapping back to the first after the last. Selection never removes
/// an entry.
#[derive(Clone, Copy, Debug, PartialEq, Eq, Structural)]
pub struct QueueScheduler {
    pub current: Option<usize>,
}

/// The entry after `current` in a corpus of `count` entries.
pub open spec fn next_index(current: Option<usize>, count: usize) -> usize {
    match current {
        Some(i) => if i + 1 < count {
            (i + 1) as usize
        } else {
            0
        },
        None => 0,
    }
}

impl QueueScheduler {
    /// A scheduler that has selected nothing yet.
    pub fn new() -> (r: QueueScheduler)
        ensures
            r.current.is_none(),
    {
        QueueScheduler { current: None }
    }

    /// Selects the next entry of a corpus of `count` entries; `None` when
    /// the corpus is empty.
    pub fn next(&mut self, count: usize) -> (r: Option<usize>)
        ensures
            count == 0 ==> r.is_none() && *final(self) == *old(self),
            count > 0 ==> r == Some(next_index(old(self).current, count)) && final(self).current
                == r,
            r matches Some(i) ==> i < count,
    {
        if count == 0 {
            return None;
        }
        let idx = match self.current {
            Some(i) => if i < count - 1 {
                i + 1
            } else {
                0
            },
            None => 0,
        };
        self.current = Some(idx);
        Some(idx)
    }
}

/// The selection held after `k` selections from a fresh scheduler over a
/// corpus of `count` entries.
pub open spec fn after_selections(count: usize, k: nat) -> Option<usize>
    decreases k,
{
    if k == 0 {
        None
    } else {
        Some(next_index(after_selections(count, (k - 1) as nat), count))
    }
}

/// The queue visits the corpus round-robin: from a fresh scheduler, the
/// selection numbered `k` (counting from zero) is entry `k mod count`.
pub proof fn lemma_round_robin(count: usize, k: nat)
    requires
        count > 0,
    ensures
        after_selections(count, k + 1) == Some((k % (count as nat)) as usize),
    decreases k,
{
    if k > 0 {
        let a: int = k - 1;
        let c: int = count as int;
        lemma_round_robin(count, a as nat);
        let p: int = a % c;
        vstd::arithmetic::div_mod::lemma_fundamental_div_mod(a, c);
        assert(a == c * (a / c) + p);
        assert(0 <= p < c);
        assert(after_selections(count, k) == Some(p as usize));
        assert(after_selections(count, k + 1) == Some(next_index(Some(p as usize), count)));
        if p + 1 < c {
            assert(k == (a / c) * c + (p + 1)) by (nonlinear_arith)
                requires
                    a == c * (a / c) + p,
                    k == a + 1,
            ;
            vstd::arithmetic::div_mod::lemma_fundamental_div_mod_converse(k as int, c, a / c, p + 1);
            assert(k as int % c == p + 1);
            assert(next_index(Some(p as usize), count) == (p + 1) as usize);
        } else {
            assert(k == (a / c + 1) * c + 0) by (nonlinear_arith)
                requires
                    a == c * (a / c) + p,
                    k == a + 1,
                    p + 1 == c,
            ;
            vstd::arithmetic::div_mod::lemma_fundamental_div_mod_converse(k as int, c, a / c + 1, 0);
            assert(k as int % c == 0);
            assert(next_index(Some(p as usize), count) == 0);
        }
    } else {
        assert(after_selections(count, 1) == Some(next_index(None, count)));
        assert(0nat % (count as nat) == 0);
    }
}

} // verus!
