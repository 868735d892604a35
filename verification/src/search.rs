//! Binary search for the block with the closest timestamp to a target timestamp.
//!
//! The search never fetches anything itself: it tells its driver which block to look at
//! next ([`SearchAction::Probe`]), the driver reports that block's timestamp back
//! ([`BlockSearch::observe`]), and when the window is empty the search names the block
//! to answer with ([`SearchAction::Settled`]).

use vstd::prelude::*;

verus! {

/// What a [`BlockSearch`] asks of its driver next.
#[derive(Clone, Copy, Debug, PartialEq, Eq, Structural)]
pub enum SearchAction {
    /// Fetch the block with this number and report its timestamp to [`BlockSearch::observe`].
    Probe(u64),
    /// The window is empty: no block has the target timestamp, and the answer is the
    /// block with this number, the first one later than the target, or the latest block
    /// when every block is earlier.
    Settled(u64),
}

/// The mathematical state of a search: the window `low..end` (`end` excluded) of block
/// numbers that may still hold the target timestamp, the latest block number and the
/// target itself.
pub struct SearchWindow {
    pub low: int,
    pub end: int,
    pub latest: int,
    pub target: int,
}

/// Timestamps of consecutive blocks never go down.
pub open spec fn is_sorted(timestamps: Seq<u64>) -> bool {
    forall|i: int, j: int| 0 <= i <= j < timestamps.len() ==> timestamps[i] <= timestamps[j]
}

/// The window a search starts from: every block from genesis to `latest`.
pub open spec fn initial_window(latest: u64, target: u64) -> SearchWindow {
    SearchWindow { low: 0, end: latest + 1, latest: latest as int, target: target as int }
}

/// The number of binary digits of `n` (0 for 0): how many halvings bring `n` down to 0.
pub open spec fn halvings(n: int) -> nat
    decreases n,
{
    if n <= 0 {
        0
    } else {
        1 + halvings(n / 2)
    }
}

impl SearchWindow {
    pub open spec fn well_formed(self) -> bool {
        &&& 0 <= self.low <= self.end <= self.latest + 1
        &&& 0 <= self.latest <= u64::MAX
        &&& 0 <= self.target <= u64::MAX
    }

    /// Some block number is still in the window.
    pub open spec fn is_open(self) -> bool {
        self.low < self.end
    }

    /// The block probed next: the middle of the window, rounded down.
    pub open spec fn midpoint(self) -> int {
        self.low + (self.end - 1 - self.low) / 2
    }

    /// The number of block numbers still in the window.
    pub open spec fn remaining(self) -> int {
        self.end - self.low
    }

    /// The block answered when the window is empty: its lower end, unless that is past the
    /// latest block, in which case the latest block.
    pub open spec fn answer(self) -> int {
        if self.low <= self.latest {
            self.low
        } else {
            self.latest
        }
    }

    pub open spec fn action(self) -> SearchAction {
        if self.is_open() {
            SearchAction::Probe(self.midpoint() as u64)
        } else {
            SearchAction::Settled(self.answer() as u64)
        }
    }

    /// The window after the midpoint block was seen to have `timestamp`.
    pub open spec fn after(self, timestamp: int) -> SearchWindow {
        if timestamp < self.target {
            SearchWindow {
                low: self.midpoint() + 1,
                end: self.end,
                latest: self.latest,
                target: self.target,
            }
        } else if timestamp > self.target {
            SearchWindow {
                low: self.low,
                end: self.midpoint(),
                latest: self.latest,
                target: self.target,
            }
        } else {
            self
        }
    }

    /// Every block below the window is earlier than the target and every block above it
    /// is later, for the chain whose block `i` has timestamp `timestamps[i]`.
    pub open spec fn consistent_with(self, timestamps: Seq<u64>) -> bool {
        &&& timestamps.len() == self.latest + 1
        &&& forall|i: int| 0 <= i < self.low ==> timestamps[i] < self.target
        &&& forall|i: int| self.end <= i <= self.latest ==> timestamps[i] > self.target
    }
}

/// A binary search over block numbers `0..=latest` for a target timestamp.
pub struct BlockSearch {
    low: u128,
    end: u128,
    latest: u64,
    target: u64,
}

impl View for BlockSearch {
    type V = SearchWindow;

    closed spec fn view(&self) -> SearchWindow {
        SearchWindow {
            low: self.low as int,
            end: self.end as int,
            latest: self.latest as int,
            target: self.target as int,
        }
    }
}

impl BlockSearch {
    #[verifier::type_invariant]
    spec fn window_is_ordered(self) -> bool {
        self.low <= self.end <= self.latest + 1
    }

    /// Starts a search over blocks `0..=latest` for `target_timestamp`.
    pub fn new(latest: u64, target_timestamp: u64) -> (search: Self)
        ensures
            search@ == initial_window(latest, target_timestamp),
            search@.well_formed(),
    {
        BlockSearch { low: 0, end: latest as u128 + 1, latest, target: target_timestamp }
    }

    /// The next step: probe the midpoint of the window while it is not empty, else settle
    /// on the answer.
    pub fn next_action(&self) -> (action: SearchAction)
        ensures
            action == self@.action(),
    {
        proof {
            use_type_invariant(self);
        }
        if self.low < self.end {
            let mid = self.low + (self.end - 1 - self.low) / 2;
            SearchAction::Probe(mid as u64)
        } else if self.low <= self.latest as u128 {
            SearchAction::Settled(self.low as u64)
        } else {
            SearchAction::Settled(self.latest)
        }
    }

    /// Reports the timestamp of the midpoint block. Returns whether it is the target;
    /// otherwise the window shrinks to the half that may still hold the target.
    pub fn observe(&mut self, timestamp: u64) -> (matched: bool)
        requires
            old(self)@.is_open(),
        ensures
            matched == (timestamp == old(self)@.target),
            final(self)@ == old(self)@.after(timestamp as int),
            final(self)@.well_formed(),
    {
        proof {
            use_type_invariant(&*self);
        }
        let mid = self.low + (self.end - 1 - self.low) / 2;
        if timestamp < self.target {
            self.low = mid + 1;
            false
        } else if timestamp > self.target {
            self.end = mid;
            false
        } else {
            true
        }
    }
}

/// A new search is consistent with every chain of `latest + 1` blocks: nothing is known yet.
pub proof fn lemma_initial_window_consistent(latest: u64, target: u64, timestamps: Seq<u64>)
    requires
        timestamps.len() == latest + 1,
    ensures
        initial_window(latest, target).well_formed(),
        initial_window(latest, target).consistent_with(timestamps),
        initial_window(latest, target).remaining() == latest + 1,
{
}

/// On a chain whose timestamps never go down, observing the midpoint's true timestamp keeps
/// the window consistent with the chain, and a miss at least halves the window.
pub proof fn lemma_observe_keeps_consistency(w: SearchWindow, timestamps: Seq<u64>)
    requires
        w.well_formed(),
        w.consistent_with(timestamps),
        is_sorted(timestamps),
        w.is_open(),
    ensures
        w.after(timestamps[w.midpoint()] as int).well_formed(),
        w.after(timestamps[w.midpoint()] as int).consistent_with(timestamps),
        timestamps[w.midpoint()] != w.target ==> 0 <= w.after(timestamps[w.midpoint()] as int).remaining()
            <= w.remaining() / 2,
{
    let mid = w.midpoint();
    let ts = timestamps[mid];
    let next = w.after(ts as int);
    if ts < w.target {
        assert forall|i: int| 0 <= i < next.low implies timestamps[i] < w.target by {
            if i > w.low - 1 {
                assert(timestamps[i] <= timestamps[mid]);
            }
        }
    } else if ts > w.target {
        assert forall|i: int| next.end <= i <= w.latest implies timestamps[i] > w.target by {
            if i < w.end {
                assert(timestamps[mid] <= timestamps[i]);
            }
        }
    }
}

/// An empty window on a consistent search means that no block has the target timestamp;
/// the answer is the first block later than the target, or the latest block when every
/// block is earlier than the target.
pub proof fn lemma_settled_answer(w: SearchWindow, timestamps: Seq<u64>)
    requires
        w.well_formed(),
        w.consistent_with(timestamps),
        !w.is_open(),
    ensures
        w.action() == SearchAction::Settled(w.answer() as u64),
        0 <= w.answer() <= w.latest,
        forall|i: int| 0 <= i <= w.latest ==> timestamps[i] != w.target,
        forall|i: int| 0 <= i < w.answer() ==> timestamps[i] < w.target,
        timestamps[w.answer()] > w.target || (w.answer() == w.latest && forall|i: int|
            0 <= i <= w.latest ==> timestamps[i] < w.target),
{
}

proof fn lemma_halvings_monotone(a: int, b: int)
    requires
        0 <= a <= b,
    ensures
        halvings(a) <= halvings(b),
    decreases b,
{
    if a > 0 {
        lemma_halvings_monotone(a / 2, b / 2);
    }
}

/// The window after up to `steps` probes of the chain whose block `i` has timestamp
/// `timestamps[i]`: the search stops early when the window is empty or the probed block
/// has the target timestamp.
pub open spec fn run(w: SearchWindow, timestamps: Seq<u64>, steps: nat) -> SearchWindow
    decreases steps,
{
    if steps == 0 || !w.is_open() || timestamps[w.midpoint()] == w.target {
        w
    } else {
        run(w.after(timestamps[w.midpoint()] as int), timestamps, (steps - 1) as nat)
    }
}

proof fn lemma_run_invariant(w: SearchWindow, timestamps: Seq<u64>, steps: nat)
    requires
        w.well_formed(),
        w.consistent_with(timestamps),
        is_sorted(timestamps),
    ensures
        run(w, timestamps, steps).well_formed(),
        run(w, timestamps, steps).consistent_with(timestamps),
        run(w, timestamps, steps).latest == w.latest,
        run(w, timestamps, steps).target == w.target,
        run(w, timestamps, steps).is_open() && timestamps[run(w, timestamps, steps).midpoint()]
            != w.target ==> halvings(run(w, timestamps, steps).remaining()) + steps <= halvings(
            w.remaining(),
        ),
    decreases steps,
{
    if steps == 0 || !w.is_open() || timestamps[w.midpoint()] == w.target {
    } else {
        let next = w.after(timestamps[w.midpoint()] as int);
        lemma_observe_keeps_consistency(w, timestamps);
        lemma_halvings_monotone(next.remaining(), w.remaining() / 2);
        lemma_run_invariant(next, timestamps, (steps - 1) as nat);
    }
}

/// The search is correct and fast: on any chain of `latest + 1` blocks whose timestamps
/// never go down, and for any target, after at most `halvings(latest + 1)` probes (the
/// number of binary digits of `latest + 1`, that is `floor(log2(latest + 1)) + 1`) the
/// search has either stopped at a block with exactly the target timestamp, or settled on
/// the first block later than the target, or on the latest block when every block is
/// earlier than the target; in the settled case no block has the target timestamp.
pub proof fn lemma_search_answer(latest: u64, target: u64, timestamps: Seq<u64>)
    requires
        timestamps.len() == latest + 1,
        is_sorted(timestamps),
    ensures
        ({
            let last = run(initial_window(latest, target), timestamps, halvings(latest + 1));
            &&& last.is_open() ==> last.action() == SearchAction::Probe(last.midpoint() as u64)
                && 0 <= last.midpoint() <= latest && timestamps[last.midpoint()] == target
            &&& !last.is_open() ==> {
                &&& last.action() == SearchAction::Settled(last.answer() as u64)
                &&& 0 <= last.answer() <= latest
                &&& forall|i: int| 0 <= i <= latest ==> timestamps[i] != target
                &&& forall|i: int| 0 <= i < last.answer() ==> timestamps[i] < target
                &&& timestamps[last.answer()] > target || (last.answer() == latest && forall|
                    i: int,
                | 0 <= i <= latest ==> timestamps[i] < target)
            }
        }),
{
    let w = initial_window(latest, target);
    lemma_initial_window_consistent(latest, target, timestamps);
    let last = run(w, timestamps, halvings(latest + 1));
    lemma_run_invariant(w, timestamps, halvings(latest + 1));
    if !last.is_open() {
        lemma_settled_answer(last, timestamps);
    }
}

} // verus!
