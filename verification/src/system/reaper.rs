//! The reaper: aborts the tasks of children that have not exited by their deadline.

use vstd::prelude::*;
use crate::actor::runtime::{deadline_after, saturating_deadline};
use crate::time::{Duration, Instant};

verus! {

/// How many deadlines the reaper's feed can hold.
pub const REAPER_CHANNEL_CAPACITY: usize = 1024;

/// One pending deadline, with what is needed to abort the task that it is about.
#[derive(Debug)]
pub struct ReaperEntry<H> {
    /// When the task is aborted if it has not exited.
    pub deadline: Instant,
    /// The handle to abort the task with.
    pub abort: H,
}

impl<H> ReaperEntry<H> {
    /// The entry with the given deadline and handle.
    pub fn new(deadline: Instant, abort: H) -> (entry: Self)
        ensures
            entry.deadline == deadline,
            entry.abort == abort,
    {
        ReaperEntry { deadline, abort }
    }
}

/// What the reaper waits for.
#[derive(Debug, Clone, Copy, PartialEq, Eq, Structural)]
pub enum ReaperWait {
    /// The next entry.
    Entry,
    /// The next entry, or the given instant, at which [`ReaperQueue::pop`] gives what is due.
    EntryOrDeadline(Instant),
    /// The given instant: the feed is closed.
    Deadline(Instant),
    /// Nothing: the feed is closed and nothing is pending.
    Nothing,
}

/// The deadlines that are pending.
#[derive(Debug)]
pub struct ReaperQueue<H> {
    entries: Vec<ReaperEntry<H>>,
}

impl<H> View for ReaperQueue<H> {
    type V = Seq<ReaperEntry<H>>;

    closed spec fn view(&self) -> Seq<ReaperEntry<H>> {
        self.entries@
    }
}

/// Whether the entry at the given place has the soonest deadline of all.
pub open spec fn soonest<H>(entries: Seq<ReaperEntry<H>>, at: int) -> bool {
    &&& 0 <= at < entries.len()
    &&& forall|i: int|
        0 <= i < entries.len() ==> entries[at].deadline.nanos <= (
        #[trigger] entries[i]).deadline.nanos
}

impl<H> ReaperQueue<H> {
    /// A queue without deadlines.
    pub fn new() -> (queue: Self)
        ensures
            queue@ == Seq::<ReaperEntry<H>>::empty(),
    {
        ReaperQueue { entries: Vec::new() }
    }

    /// Adds a deadline.
    pub fn push(&mut self, entry: ReaperEntry<H>)
        ensures
            final(self)@ == old(self)@.push(entry),
    {
        self.entries.push(entry);
    }

    /// The place of an entry with the soonest deadline.
    fn soonest_at(&self) -> (at: Option<usize>)
        ensures
            at is Some == (self@.len() > 0),
            at is Some ==> soonest(self@, at->0 as int),
    {
        if self.entries.len() == 0 {
            return None;
        }
        let mut at: usize = 0;
        let mut i: usize = 1;
        while i < self.entries.len()
            invariant
                at < i <= self.entries.len(),
                forall|j: int|
                    0 <= j < i ==> self@[at as int].deadline.nanos <= (
                    #[trigger] self@[j]).deadline.nanos,
            decreases self.entries.len() - i,
        {
            if self.entries[i].deadline.nanos < self.entries[at].deadline.nanos {
                at = i;
            }
            i += 1;
        }
        Some(at)
    }

    /// What the reaper waits for, by whether its feed is open.
    pub fn next_wait(&self, channel_open: bool) -> (wait: ReaperWait)
        ensures
            match wait {
                ReaperWait::Entry => channel_open && self@.len() == 0,
                ReaperWait::Nothing => !channel_open && self@.len() == 0,
                ReaperWait::EntryOrDeadline(deadline) => channel_open && exists|at: int|
                    soonest(self@, at) && deadline == self@[at].deadline,
                ReaperWait::Deadline(deadline) => !channel_open && exists|at: int|
                    soonest(self@, at) && deadline == self@[at].deadline,
            },
    {
        match self.soonest_at() {
            Some(at) => {
                let deadline: Instant = self.entries[at].deadline;
                assert(soonest(self@, at as int));
                if channel_open {
                    ReaperWait::EntryOrDeadline(deadline)
                } else {
                    ReaperWait::Deadline(deadline)
                }
            },
            None => if channel_open {
                ReaperWait::Entry
            } else {
                ReaperWait::Nothing
            },
        }
    }

    /// Takes an entry with the soonest deadline out.
    pub fn pop(&mut self) -> (due: Option<ReaperEntry<H>>)
        ensures
            due is Some == (old(self)@.len() > 0),
            due is None ==> final(self)@ == old(self)@,
            due is Some ==> exists|at: int|
                soonest(old(self)@, at) && due->0 == old(self)@[at] && final(self)@
                    == old(self)@.remove(at),
    {
        match self.soonest_at() {
            Some(at) => {
                let due: ReaperEntry<H> = self.entries.remove(at);
                assert(soonest(old(self)@, at as int) && self@ == old(self)@.remove(at as int));
                Some(due)
            },
            None => None,
        }
    }
}

/// Deadlines come out of the reaper's queue in order: what is left after a deadline was taken out
/// is not due before it.
pub proof fn soonest_deadline_comes_first<H>(entries: Seq<ReaperEntry<H>>, at: int, i: int)
    requires
        soonest(entries, at),
        0 <= i < entries.len() - 1,
    ensures
        entries[at].deadline.nanos <= entries.remove(at)[i].deadline.nanos,
{
    if i < at {
        assert(entries.remove(at)[i] == entries[i]);
    } else {
        assert(entries.remove(at)[i] == entries[i + 1]);
    }
}

/// Safety net of one incarnation of a child: where it goes away before the incarnation's fate was
/// recorded, the incarnation is brought down.
#[derive(Debug)]
pub struct ChildLinkGuard {
    grace: Duration,
    armed: bool,
}

impl ChildLinkGuard {
    /// Whether the incarnation's fate is still unrecorded.
    pub closed spec fn is_armed(&self) -> bool {
        self.armed
    }

    /// How long the incarnation is given before its task is aborted.
    pub closed spec fn given_grace(&self) -> Duration {
        self.grace
    }

    /// An armed guard with the given grace.
    pub fn new(grace: Duration) -> (guard: Self)
        ensures
            guard.is_armed(),
            guard.given_grace() == grace,
    {
        ChildLinkGuard { grace, armed: true }
    }

    /// Marks the incarnation as terminated and recorded: the guard does nothing any more.
    pub fn disarm(&mut self)
        ensures
            !final(self).is_armed(),
            final(self).given_grace() == old(self).given_grace(),
    {
        self.armed = false;
    }

    /// When the guard goes away: the deadline to hand to the reaper, after Kill was raised on the
    /// incarnation and it was published as stopped; nothing where its fate was recorded.
    pub fn fire(&self, now: Instant) -> (deadline: Option<Instant>)
        ensures
            deadline == if self.is_armed() {
                Some(deadline_after(now, self.given_grace()))
            } else {
                None
            },
    {
        if self.armed {
            Some(saturating_deadline(now, self.grace))
        } else {
            None
        }
    }
}

} // verus!
