//! The batch download coordinator.
//!
//! Downloads are driven in strict lock-step batches: the fetches of one
//! group of consecutive page locators are launched together, and the next
//! group starts only once the current group has fully drained. The
//! coordinator here is the decision core of that pipeline: it is fed the
//! events ("a fetch was launched", "a fetch completed") and answers, at each
//! step, whether to launch the next fetch, wait for the in-flight ones, or
//! stop. The surrounding I/O loop performs the actions it picks.

use vstd::arithmetic::div_mod::lemma_fundamental_div_mod;
use vstd::arithmetic::div_mod::lemma_fundamental_div_mod_converse;
use vstd::prelude::*;

verus! {

/// One remote page image to fetch: its source address and its position in
/// the final document. The index is zero-based and contiguous, fixes the
/// page's file name, and with it the assembled page order.
pub struct PageLocator {
    pub index: u64,
    pub url: String,
}

/// Pairs each page address with its position: the `k`-th address of the
/// source listing becomes the locator with index `k`.
pub fn page_locators(page_urls: &Vec<String>) -> (r: Vec<PageLocator>)
    ensures
        r@.len() == page_urls@.len(),
        forall|k: int|
            0 <= k < r@.len() ==> (#[trigger] r@[k]).index == k && r@[k].url@ == page_urls@[k]@,
{
    let mut r: Vec<PageLocator> = Vec::new();
    let mut k: usize = 0;
    while k < page_urls.len()
        invariant
            0 <= k <= page_urls@.len(),
            r@.len() == k,
            forall|i: int|
                0 <= i < k ==> (#[trigger] r@[i]).index == i && r@[i].url@ == page_urls@[i]@,
        decreases page_urls@.len() - k,
    {
        r.push(PageLocator { index: k as u64, url: page_urls[k].clone() });
        k = k + 1;
    }
    r
}

/// What the surrounding download loop should do next.
#[derive(Clone, Copy, Debug, PartialEq, Eq, Structural)]
pub enum BatchAction {
    /// Launch the fetch of the page locator with this index.
    Launch(usize),
    /// Await the completion of an in-flight fetch.
    Wait,
    /// Every locator's fetch has completed.
    Done,
}

/// Drives `total` page fetches, launched in index order and grouped in
/// lock-step batches of `batch`: a new group starts every `batch` locators,
/// by position in the sequence, and only once the previous group has fully
/// drained. At no point are more than `batch` fetches in flight.
pub struct BatchCoordinator {
    /// How many page locators there are; indices run `0 .. total`.
    pub total: usize,
    /// The concurrency limit: the size of each lock-step group.
    pub batch: usize,
    /// How many fetches have been launched; the next launch gets this index.
    pub launched: usize,
    /// How many fetches have completed.
    pub completed: usize,
    /// The indices launched so far, in launch order.
    pub history: Ghost<Seq<int>>,
}

impl BatchCoordinator {
    /// The number of fetches launched and not yet completed.
    pub open spec fn in_flight(self) -> int {
        self.launched - self.completed
    }

    /// The coordinator's invariant: counters in range, never more than
    /// `batch` in flight, every in-flight fetch belongs to the group that is
    /// currently draining (the one the most recent launch falls in), and the
    /// launch history is exactly `0, 1, ..., launched - 1`.
    pub open spec fn wf(self) -> bool {
        &&& 1 <= self.batch
        &&& self.completed <= self.launched <= self.total
        &&& self.launched - self.completed <= self.batch
        &&& (self.completed < self.launched ==> self.completed as int
            >= ((self.launched as int - 1) / (self.batch as int)) * (self.batch as int))
        &&& self.history@.len() == self.launched
        &&& (forall|k: int| 0 <= k < self.launched ==> self.history@[k] == k)
    }

    /// A launch is allowed while locators remain and the position is not a
    /// group boundary — at a boundary the previous group must first drain.
    pub open spec fn can_launch(self) -> bool {
        &&& self.launched < self.total
        &&& (self.launched as int % self.batch as int != 0 || self.completed == self.launched)
    }

    /// A fresh coordinator over `total` locators with concurrency limit
    /// `batch`: nothing launched, nothing completed.
    pub fn new(total: usize, batch: usize) -> (c: Self)
        requires
            1 <= batch,
        ensures
            c.wf(),
            c.total == total,
            c.batch == batch,
            c.launched == 0,
            c.completed == 0,
            c.history@ == Seq::<int>::empty(),
    {
        BatchCoordinator { total, batch, launched: 0, completed: 0, history: Ghost(Seq::empty()) }
    }

    /// Picks the next step: `Launch(i)` exactly when a launch is allowed —
    /// `i` is always the next unlaunched index — `Done` exactly when every
    /// fetch has completed, and `Wait` otherwise, in which case at least one
    /// fetch is in flight to wait for.
    pub fn next_action(&self) -> (a: BatchAction)
        requires
            self.wf(),
        ensures
            (a == BatchAction::Done) <==> self.completed == self.total,
            (a == BatchAction::Launch(self.launched)) <==> self.can_launch(),
            (a matches BatchAction::Launch(i) ==> i == self.launched),
            (a == BatchAction::Wait) <==> (self.completed < self.total && !self.can_launch()),
            a == BatchAction::Wait ==> self.in_flight() > 0,
    {
        if self.completed == self.total {
            BatchAction::Done
        } else if self.launched < self.total
            && (self.launched % self.batch != 0 || self.completed == self.launched) {
            BatchAction::Launch(self.launched)
        } else {
            BatchAction::Wait
        }
    }

    /// Records that the fetch of the next locator was launched. Keeps the
    /// invariant: in particular, the bound of `batch` in-flight fetches.
    pub fn note_launched(&mut self)
        requires
            old(self).wf(),
            old(self).can_launch(),
        ensures
            final(self).wf(),
            final(self).total == old(self).total,
            final(self).batch == old(self).batch,
            final(self).completed == old(self).completed,
            final(self).launched == old(self).launched + 1,
            final(self).history@ == old(self).history@.push(old(self).launched as int),
    {
        proof {
            let l = self.launched as int;
            let b = self.batch as int;
            lemma_fundamental_div_mod(l, b);
            assert(l == b * (l / b) + l % b);
            assert((l / b) * b == b * (l / b)) by (nonlinear_arith);
            if l % b != 0 {
                lemma_fundamental_div_mod_converse(l - 1, b, l / b, l % b - 1);
                assert((l - 1) / b == l / b);
            }
            assert(self.completed as int >= (l / b) * b);
            assert(l + 1 - self.completed <= b);
            self.history@ = self.history@.push(self.launched as int);
        }
        self.launched = self.launched + 1;
    }

    /// Records that one in-flight fetch completed, whichever of the current
    /// group's fetches it was: within a group, completion order is free.
    pub fn note_completed(&mut self)
        requires
            old(self).wf(),
            old(self).in_flight() > 0,
        ensures
            final(self).wf(),
            final(self).total == old(self).total,
            final(self).batch == old(self).batch,
            final(self).completed == old(self).completed + 1,
            final(self).launched == old(self).launched,
            final(self).history@ == old(self).history@,
    {
        self.completed = self.completed + 1;
    }
}

/// Concurrency bound law: a coordinator never has more than `batch` fetches
/// in flight.
pub proof fn lemma_inflight_bounded(c: BatchCoordinator)
    requires
        c.wf(),
    ensures
        c.in_flight() <= c.batch as int,
{
}

/// One fetch per locator law: a coordinator that has finished has launched
/// exactly one fetch per locator, in index order `0, 1, ..., total - 1` —
/// so exactly one page file is written per locator, named by its index.
pub proof fn lemma_one_fetch_per_locator(c: BatchCoordinator)
    requires
        c.wf(),
        c.completed == c.total,
    ensures
        c.history@ == Seq::new(c.total as nat, |k: int| k),
        c.history@.no_duplicates(),
{
    assert(c.history@ =~= Seq::new(c.total as nat, |k: int| k));
}

/// Lock-step law: the first fetch of a new group can only be launched once
/// every fetch of the previous groups has completed — one group fully
/// drains before the next starts.
pub proof fn lemma_lock_step(c: BatchCoordinator)
    requires
        c.wf(),
        c.can_launch(),
        c.launched as int % c.batch as int == 0,
    ensures
        c.completed == c.launched,
{
}

/// Gate for one book's download. A destination directory that already
/// exists means the download is already in progress or complete: the whole
/// batch is skipped — no coordinator, hence no fetch and no file written —
/// so a second invocation over the same destination performs zero additional
/// writes. Otherwise a fresh coordinator over all `total` locators.
pub fn start_download(dir_exists: bool, total: usize, batch: usize) -> (r: Option<BatchCoordinator>)
    requires
        1 <= batch,
    ensures
        (r is Some) <==> !dir_exists,
        (r matches Some(c) ==> c.wf() && c.total == total && c.batch == batch && c.launched == 0
            && c.completed == 0),
{
    if dir_exists {
        None
    } else {
        Some(BatchCoordinator::new(total, batch))
    }
}

} // verus!
