use vstd::prelude::*;
use crate::snapshot::PerfInfo;

verus! {

/// Why a drain was refused.
#[derive(Clone, Copy, Debug, PartialEq, Eq, Structural)]
pub enum BufferError {
    /// Fewer snapshots are buffered than were asked for.
    InsufficientData,
}

/// The ordered sequence of snapshots awaiting delivery. Exclusive access is
/// what `&mut self` gives; a program that shares one buffer between tasks puts
/// it behind a single lock.
pub struct SharedBuffer {
    items: Vec<PerfInfo>,
}

impl View for SharedBuffer {
    type V = Seq<PerfInfo>;

    closed spec fn view(&self) -> Seq<PerfInfo> {
        self.items@
    }
}

impl SharedBuffer {
    pub fn new() -> (r: SharedBuffer)
        ensures
            r@ == Seq::<PerfInfo>::empty(),
    {
        SharedBuffer { items: Vec::new() }
    }

    /// Adds a snapshot at the end.
    pub fn append(&mut self, snapshot: PerfInfo)
        ensures
            final(self)@ == old(self)@.push(snapshot),
    {
        self.items.push(snapshot);
    }

    pub fn length(&self) -> (r: usize)
        ensures
            r == self@.len(),
    {
        self.items.len()
    }

    /// The most recently appended snapshot still buffered.
    pub fn peek_last(&self) -> (r: Option<&PerfInfo>)
        ensures
            self@.len() == 0 ==> r is None,
            self@.len() > 0 ==> r == Some(&self@.last()),
    {
        let n = self.items.len();
        if n == 0 {
            None
        } else {
            Some(&self.items[n - 1])
        }
    }

    /// Removes the first `n` snapshots and returns them in their order; with
    /// fewer than `n` buffered, refuses and changes nothing.
    pub fn drain_front(&mut self, n: usize) -> (r: Result<Vec<PerfInfo>, BufferError>)
        ensures
            old(self)@.len() < n ==> r == Err::<Vec<PerfInfo>, BufferError>(
                BufferError::InsufficientData,
            ) && final(self)@ == old(self)@,
            old(self)@.len() >= n ==> (r matches Ok(batch) && batch@ == old(self)@.take(n as int)
                && final(self)@ == old(self)@.skip(n as int)),
    {
        if self.items.len() < n {
            return Err(BufferError::InsufficientData);
        }
        let mut batch = self.items.split_off(n);
        std::mem::swap(&mut batch, &mut self.items);
        proof {
            assert(batch@ =~= old(self)@.take(n as int));
            assert(self.items@ =~= old(self)@.skip(n as int));
        }
        Ok(batch)
    }
}

/// What a run of appends does: the buffer followed by the appended snapshots.
pub open spec fn after_appends(start: Seq<PerfInfo>, appended: Seq<PerfInfo>) -> Seq<PerfInfo> {
    start + appended
}

/// The buffer states seen over a run of appends with no drain in between:
/// each state is the one before with the next snapshot pushed, as `append`
/// ensures.
pub open spec fn is_append_run(states: Seq<Seq<PerfInfo>>, appended: Seq<PerfInfo>) -> bool {
    &&& states.len() == appended.len() + 1
    &&& forall|i: int| 0 <= i < appended.len() ==> #[trigger] states[i + 1] == states[i].push(appended[i])
}

/// After N appends to an empty buffer with no drain between them, the length
/// is N and the last buffered snapshot is the N-th one appended; in general
/// the buffer holds what it held, then the appended snapshots in order.
pub proof fn lemma_appends(states: Seq<Seq<PerfInfo>>, appended: Seq<PerfInfo>)
    requires
        is_append_run(states, appended),
    ensures
        states.last() == after_appends(states[0], appended),
        states[0].len() == 0 ==> states.last().len() == appended.len(),
        states[0].len() == 0 && appended.len() > 0 ==> states.last().last() == appended.last(),
    decreases appended.len(),
{
    if appended.len() == 0 {
        assert(states[0] + appended =~= states[0]);
    } else {
        let k = appended.len() - 1;
        let shorter = states.drop_last();
        let first = appended.drop_last();
        assert(is_append_run(shorter, first)) by {
            assert forall|i: int| 0 <= i < first.len() implies #[trigger] shorter[i + 1]
                == shorter[i].push(first[i]) by {
                assert(states[i + 1] == states[i].push(appended[i]));
            }
        }
        lemma_appends(shorter, first);
        assert(states[k + 1] == states[k].push(appended[k]));
        assert(states[0] + appended =~= (states[0] + first).push(appended[k]));
    }
}

/// A drain of `k` from a buffer of `l >= k` snapshots: the batch and what
/// stays, put back together, are the buffer as it was, and each keeps the
/// original order.
pub proof fn lemma_drain_splits(before: Seq<PerfInfo>, k: nat)
    requires
        k <= before.len(),
    ensures
        before.take(k as int).len() == k,
        before.skip(k as int).len() == before.len() - k,
        before.take(k as int) + before.skip(k as int) == before,
        forall|i: int| 0 <= i < before.len() - k ==> #[trigger] before.skip(k as int)[i] == before[k + i],
{
    assert(before.take(k as int) + before.skip(k as int) =~= before);
}

} // verus!
