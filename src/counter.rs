use vstd::prelude::*;

verus! {

/// The cumulative number of snapshots the collector accepted. It only grows.
pub struct SentCounter {
    total: usize,
}

impl View for SentCounter {
    type V = nat;

    closed spec fn view(&self) -> nat {
        self.total as nat
    }
}

impl SentCounter {
    pub fn new() -> (r: SentCounter)
        ensures
            r@ == 0,
    {
        SentCounter { total: 0 }
    }

    /// Whether `n` more can be counted without passing the machine's bound.
    pub fn can_add(&self, n: usize) -> (r: bool)
        ensures
            r == (self@ + n <= usize::MAX),
    {
        n <= usize::MAX - self.total
    }

    /// Counts `n` more delivered snapshots.
    pub fn add(&mut self, n: usize)
        requires
            old(self)@ + n <= usize::MAX,
        ensures
            final(self)@ == old(self)@ + n,
    {
        self.total = self.total + n;
    }

    pub fn value(&self) -> (r: usize)
        ensures
            r == self@,
    {
        self.total
    }
}

/// The sum of a sequence of increments.
pub open spec fn sum_of(vs: Seq<nat>) -> nat
    decreases vs.len(),
{
    if vs.len() == 0 {
        0
    } else {
        sum_of(vs.drop_last()) + vs.last()
    }
}

/// The counter values seen over a run of `add` calls, in whatever order a
/// lock let them through: each value is the one before plus that call's
/// increment, as `add` ensures.
pub open spec fn is_add_run(values: Seq<nat>, increments: Seq<nat>) -> bool {
    &&& values.len() == increments.len() + 1
    &&& forall|i: int| 0 <= i < increments.len() ==> #[trigger] values[i + 1] == values[i] + increments[i]
}

/// After M successful `add` calls with increments v1..vM, the counter has
/// grown by exactly v1 + ... + vM: no increment is lost.
pub proof fn lemma_adds_sum(values: Seq<nat>, increments: Seq<nat>)
    requires
        is_add_run(values, increments),
    ensures
        values.last() == values[0] + sum_of(increments),
    decreases increments.len(),
{
    if increments.len() > 0 {
        let k = increments.len() - 1;
        let shorter = values.drop_last();
        let first = increments.drop_last();
        assert(is_add_run(shorter, first)) by {
            assert forall|i: int| 0 <= i < first.len() implies #[trigger] shorter[i + 1]
                == shorter[i] + first[i] by {
                assert(values[i + 1] == values[i] + increments[i]);
            }
        }
        lemma_adds_sum(shorter, first);
        assert(values[k + 1] == values[k] + increments[k]);
    }
}

/// The order in which increments are applied does not change their sum.
pub proof fn lemma_sum_any_order(vs: Seq<nat>, ws: Seq<nat>)
    requires
        vs.to_multiset() == ws.to_multiset(),
    ensures
        sum_of(vs) == sum_of(ws),
    decreases vs.len(),
{
    broadcast use vstd::seq_lib::group_to_multiset_ensures, vstd::multiset::group_multiset_axioms;
    if vs.len() == 0 {
        assert(ws.to_multiset().len() == 0);
    } else {
        let x = vs.last();
        let d = vs.drop_last();
        assert(vs =~= d.push(x));
        assert(vs.to_multiset() =~= d.to_multiset().insert(x));
        assert(ws.to_multiset().count(x) > 0);
        assert(ws.contains(x));
        let j = choose|j: int| 0 <= j < ws.len() && ws[j] == x;
        let ws2 = ws.remove(j);
        lemma_sum_remove(ws, j);
        assert(ws2.to_multiset() =~= ws.to_multiset().remove(x));
        assert(d.to_multiset() =~= ws2.to_multiset());
        lemma_sum_any_order(vs.drop_last(), ws2);
    }
}

/// Taking one increment out of a run lowers the sum by exactly that amount.
proof fn lemma_sum_remove(vs: Seq<nat>, j: int)
    requires
        0 <= j < vs.len(),
    ensures
        sum_of(vs) == sum_of(vs.remove(j)) + vs[j],
    decreases vs.len(),
{
    if j < vs.len() - 1 {
        let d = vs.drop_last();
        lemma_sum_remove(d, j);
        let r = vs.remove(j);
        assert(r =~= d.remove(j).push(vs.last()));
        assert(r.drop_last() =~= d.remove(j));
        assert(sum_of(r) == sum_of(d.remove(j)) + vs.last());
    } else {
        assert(vs.remove(j) =~= vs.drop_last());
    }
}

} // verus!
