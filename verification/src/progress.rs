//! How far a replay has come.
//!
//! A replay reports the index of every file that it has finished, counting
//! down to `0`. The index is also the number of files that are still to come,
//! so it is kept as is, beside the number of files that the replay set out
//! with.

use vstd::prelude::*;
use crate::broadcast_bus::Subscriber;
use crate::uploader::countdown;

verus! {

/// The progress of a replay as plain values.
pub struct ProgressView {
    /// The number of files that are still to come.
    pub current: int,
    /// The number of files that the replay set out with.
    pub total: int,
}

impl ProgressView {
    /// The progress before the first file of `total` files is finished.
    pub open spec fn start(total: int) -> ProgressView {
        ProgressView { current: total, total }
    }

    /// Whether a report of `index` is taken: it must tell of fewer files to
    /// come than are known to be, and of no negative number.
    pub open spec fn takes(self, index: int) -> bool {
        0 <= index < self.current
    }

    /// The progress after a report of `index`: a report that is taken sets
    /// the number of files to come, any other report changes nothing.
    pub open spec fn after(self, index: int) -> ProgressView {
        if self.takes(index) {
            ProgressView { current: index, total: self.total }
        } else {
            self
        }
    }

    /// The progress after the reports `indices`, taken in their order.
    pub open spec fn after_all(self, indices: Seq<int>) -> ProgressView
        decreases indices.len(),
    {
        if indices.len() == 0 {
            self
        } else {
            self.after(indices[0]).after_all(indices.drop_first())
        }
    }
}

/// The progress of a replay: how many files are still to come, of how many.
#[derive(Clone, Copy, Debug, PartialEq, Eq, Structural)]
pub struct ProgressState {
    current: i64,
    total: i64,
}

impl View for ProgressState {
    type V = ProgressView;

    closed spec fn view(&self) -> ProgressView {
        ProgressView { current: self.current as int, total: self.total as int }
    }
}

impl ProgressState {
    #[verifier::type_invariant]
    spec fn within_total(&self) -> bool {
        0 <= self.current <= self.total
    }

    /// The progress of a replay that sets out with `total` files. There is
    /// none for a negative number of files.
    pub fn start(total: i64) -> (progress: Option<ProgressState>)
        ensures
            match progress {
                Some(state) => total >= 0 && state@ == ProgressView::start(total as int),
                None => total < 0,
            },
    {
        if total >= 0 {
            Some(ProgressState { current: total, total })
        } else {
            None
        }
    }

    /// Takes in the report that the file with the index `index` is finished.
    /// Returns whether the report was taken.
    pub fn update(&mut self, index: i64) -> (taken: bool)
        ensures
            taken == old(self)@.takes(index as int),
            final(self)@ == old(self)@.after(index as int),
            final(self)@.current <= old(self)@.current,
            final(self)@.total == old(self)@.total,
    {
        proof {
            use_type_invariant(&*self);
        }
        if 0 <= index && index < self.current {
            *self = ProgressState { current: index, total: self.total };
            true
        } else {
            false
        }
    }

    /// The number of files that are still to come.
    pub fn current(&self) -> (current: i64)
        ensures
            current == self@.current,
            0 <= current <= self@.total,
    {
        proof {
            use_type_invariant(self);
        }
        self.current
    }

    /// The number of files that the replay set out with.
    pub fn total(&self) -> (total: i64)
        ensures
            total == self@.total,
    {
        self.total
    }

    /// The number of files that are finished.
    pub fn finished(&self) -> (finished: i64)
        ensures
            finished == self@.total - self@.current,
            0 <= finished <= self@.total,
    {
        proof {
            use_type_invariant(self);
        }
        self.total - self.current
    }

    /// Tells whether no file is still to come.
    pub fn is_complete(&self) -> (complete: bool)
        ensures
            complete == (self@.current == 0),
    {
        self.current == 0
    }
}

/// The reports of a replay that finishes the files `from - 1` down to `to` are
/// all taken by a progress that has `from` files to come, and leave it with
/// `to` files to come.
pub proof fn lemma_countdown_is_followed(progress: ProgressView, to: nat)
    requires
        0 <= to <= progress.current,
    ensures
        progress.after_all(countdown(progress.current as nat, to)) == (ProgressView {
            current: to as int,
            total: progress.total,
        }),
    decreases progress.current - to,
{
    let from = progress.current as nat;
    let reports = countdown(from, to);
    if from > to {
        let next = progress.after(reports[0]);
        assert(reports.drop_first() =~= countdown((from - 1) as nat, to));
        lemma_countdown_is_followed(next, to);
    }
}

/// The reports of a whole replay of `total` files leave the progress that set
/// out with `total` files complete.
pub proof fn lemma_whole_replay_completes(total: nat)
    ensures
        ProgressView::start(total as int).after_all(countdown(total, 0)) == (ProgressView {
            current: 0,
            total: total as int,
        }),
{
    lemma_countdown_is_followed(ProgressView::start(total as int), 0);
}

/// The progress of a replay together with the subscription on which its
/// reports arrive.
pub struct ProgressTracker {
    state: ProgressState,
    updates: Subscriber<i64>,
}

impl View for ProgressTracker {
    type V = ProgressView;

    closed spec fn view(&self) -> ProgressView {
        self.state@
    }
}

impl ProgressTracker {
    /// Follows a replay of `total` files whose reports arrive on `updates`.
    /// There is no tracker for a negative number of files.
    pub fn new(total: i64, updates: Subscriber<i64>) -> (tracker: Option<ProgressTracker>)
        ensures
            match tracker {
                Some(tracker) => total >= 0 && tracker@ == ProgressView::start(total as int),
                None => total < 0,
            },
    {
        match ProgressState::start(total) {
            Some(state) => Some(ProgressTracker { state, updates }),
            None => None,
        }
    }

    /// The progress as it is known.
    pub fn state(&self) -> (state: ProgressState)
        ensures
            state@ == self@,
    {
        self.state
    }

    /// Takes in one report if one has arrived, without waiting for one.
    /// Returns the report that arrived, whether or not it was taken.
    pub fn poll(&mut self) -> (arrived: Option<i64>)
        ensures
            match arrived {
                Some(index) => final(self)@ == old(self)@.after(index as int),
                None => final(self)@ == old(self)@,
            },
    {
        let arrived = self.updates.try_recv();
        if let Some(index) = arrived {
            let _ = self.state.update(index);
        }
        arrived
    }
}

} // verus!
