//! The queue of deadlines: what the node asked to be woken for, the
//! earliest first.

use vstd::prelude::*;
use crate::helpers::Milliseconds;
use crate::node::events::{NodeTimeoutView, TimeoutRequest};

verus! {

/// The deadlines that are set and have not come, in ascending order of
/// time; deadlines of one time stand in the order in which they were set.
#[derive(Debug)]
pub struct TimeoutQueue {
    /// The deadlines, the earliest first.
    pub items: Vec<TimeoutRequest>,
}

/// A deadline as a mathematical value: its time and what it is for.
pub open spec fn request_view(request: TimeoutRequest) -> (Milliseconds, NodeTimeoutView) {
    (request.0, request.1@)
}

impl View for TimeoutQueue {
    type V = Seq<(Milliseconds, NodeTimeoutView)>;

    open spec fn view(&self) -> Seq<(Milliseconds, NodeTimeoutView)> {
        self.items@.map_values(|r: TimeoutRequest| request_view(r))
    }
}

/// The times of `queue` do not descend.
pub open spec fn in_order(queue: Seq<(Milliseconds, NodeTimeoutView)>) -> bool {
    forall|i: int, j: int| 0 <= i < j < queue.len() ==> (#[trigger] queue[i]).0 <= (
    #[trigger] queue[j]).0
}

/// Whether `at` is the place in `queue` before which no deadline is later
/// than `time`, and from which on every deadline is.
pub open spec fn is_place(queue: Seq<(Milliseconds, NodeTimeoutView)>, time: Milliseconds, at: int) -> bool {
    &&& 0 <= at <= queue.len()
    &&& forall|j: int| 0 <= j < at ==> (#[trigger] queue[j]).0 <= time
    &&& forall|j: int| at <= j < queue.len() ==> (#[trigger] queue[j]).0 > time
}

/// The place in `queue` at which a deadline of the time `time` is put:
/// behind every deadline that is not later.
pub open spec fn place_of(queue: Seq<(Milliseconds, NodeTimeoutView)>, time: Milliseconds) -> int {
    choose|at: int| is_place(queue, time, at)
}

/// Only one place is the place of a time.
pub proof fn lemma_place_unique(
    queue: Seq<(Milliseconds, NodeTimeoutView)>,
    time: Milliseconds,
    a: int,
    b: int,
)
    requires
        is_place(queue, time, a),
        is_place(queue, time, b),
    ensures
        a == b,
{
    if a < b {
        assert(queue[a].0 <= time);
    } else if b < a {
        assert(queue[b].0 <= time);
    }
}

impl TimeoutQueue {
    /// The invariant of the queue: the times do not descend.
    pub open spec fn wf(&self) -> bool {
        in_order(self@)
    }

    /// A queue with no deadline.
    pub fn new() -> (q: Self)
        ensures
            q.wf(),
            q@.len() == 0,
    {
        TimeoutQueue { items: Vec::new() }
    }

    /// Number of deadlines in the queue.
    pub fn len(&self) -> (n: usize)
        ensures
            n == self@.len(),
    {
        self.items.len()
    }

    /// The time of the earliest deadline, if there is one.
    pub fn next_deadline(&self) -> (t: Option<Milliseconds>)
        ensures
            t == if self@.len() > 0 {
                Some(self@[0].0)
            } else {
                None
            },
    {
        if self.items.len() > 0 {
            Some(self.items[0].0)
        } else {
            None
        }
    }

    /// Sets the deadline `request`: it is put behind every deadline that is
    /// not later than it.
    pub fn push(&mut self, request: TimeoutRequest)
        requires
            old(self).wf(),
        ensures
            final(self).wf(),
            final(self)@ == old(self)@.insert(
                place_of(old(self)@, request.0),
                request_view(request),
            ),
    {
        let time = request.0;
        let ghost before = self@;
        let ghost entry = request_view(request);
        let mut at: usize = self.items.len();
        while at > 0 && self.items[at - 1].0 > time
            invariant
                at <= self.items.len(),
                before == self@,
                in_order(before),
                forall|j: int| at <= j < before.len() ==> (#[trigger] before[j]).0 > time,
            decreases at,
        {
            proof {
                assert(before[at - 1].0 == self.items@[at - 1].0);
            }
            at = at - 1;
        }
        proof {
            assert(is_place(before, time, at as int)) by {
                assert forall|j: int| 0 <= j < at implies (#[trigger] before[j]).0 <= time by {
                    assert(before[at - 1].0 == self.items@[at - 1].0);
                    if j < at - 1 {
                        assert(before[j].0 <= before[at - 1].0);
                    }
                }
            }
            lemma_place_unique(before, time, at as int, place_of(before, time));
        }
        self.items.insert(at, request);
        proof {
            let after = self@;
            assert(after =~= before.insert(at as int, entry));
            assert forall|i: int, j: int| 0 <= i < j < after.len() implies (
            #[trigger] after[i]).0 <= (#[trigger] after[j]).0 by {
                let bi = if i < at { i } else { i - 1 };
                let bj = if j < at { j } else { j - 1 };
                if i != at {
                    assert(after[i] == before[bi]);
                }
                if j != at {
                    assert(after[j] == before[bj]);
                }
            }
        }
    }

    /// Takes the earliest deadline out of the queue, if its time has come:
    /// if it is not later than `now`.
    pub fn pop_due(&mut self, now: Milliseconds) -> (r: Option<TimeoutRequest>)
        requires
            old(self).wf(),
        ensures
            final(self).wf(),
            match r {
                Some(request) => old(self)@.len() > 0 && request_view(request) == old(self)@[0]
                    && request.0 <= now && final(self)@ == old(self)@.drop_first(),
                None => (old(self)@.len() == 0 || old(self)@[0].0 > now) && final(self)@ == old(self)@,
            },
    {
        if self.items.len() == 0 || self.items[0].0 > now {
            return None;
        }
        let ghost before = self@;
        let request = self.items.remove(0);
        proof {
            let after = self@;
            assert(after =~= before.drop_first());
            assert forall|i: int, j: int| 0 <= i < j < after.len() implies (
            #[trigger] after[i]).0 <= (#[trigger] after[j]).0 by {
                assert(after[i] == before[i + 1]);
                assert(after[j] == before[j + 1]);
            }
        }
        Some(request)
    }
}

} // verus!
