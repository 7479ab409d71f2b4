//! The life cycle of a program running in the PTY overlay, as decisions:
//! when the process group gets its one kill signal, when the leader still
//! has to be waited for, and when the teardown command runs. The caller
//! owns the pseudo-terminal and the child, performs what a decision asks
//! for, and reports back what it observed.

use vstd::prelude::*;
use crate::pty::PtyKind;

verus! {

/// What closing the overlay asks the caller to do, in order.
#[derive(Debug, PartialEq, Eq)]
pub struct KillPlan {
    /// Send the kill signal to this process group (the leader's pid), when
    /// the group has not been signalled yet.
    pub signal_group: Option<u32>,
    /// Kill the leader and wait until it is reaped; `false` when it already
    /// was, so a second blocking wait never happens.
    pub wait_for_leader: bool,
    /// Run this command once, ignoring its outcome (a container outlives
    /// its client and must be stopped by name).
    pub teardown: Option<Vec<String>>,
}

/// The overlay's process state.
pub struct PtySession {
    pub kind: PtyKind,
    /// Current PTY column count.
    pub cols: u16,
    /// Current PTY row count.
    pub rows: u16,
    /// The child exited and the overlay lingers so its output stays on
    /// screen; any key then closes it.
    pub finished: bool,
    reaped: bool,
    signalled: bool,
    spawn_pid: Option<u32>,
    teardown: Option<Vec<String>>,
}

impl PtySession {
    pub closed spec fn kind_view(&self) -> PtyKind {
        self.kind
    }

    pub closed spec fn size_view(&self) -> (u16, u16) {
        (self.cols, self.rows)
    }

    pub closed spec fn finished_view(&self) -> bool {
        self.finished
    }

    /// The leader has been seen exited and reaped.
    pub closed spec fn reaped_view(&self) -> bool {
        self.reaped
    }

    /// The process group has been sent its kill signal.
    pub closed spec fn signalled_view(&self) -> bool {
        self.signalled
    }

    /// The leader's pid, captured at spawn.
    pub closed spec fn pid_view(&self) -> Option<u32> {
        self.spawn_pid
    }

    /// The teardown command still to run.
    pub closed spec fn teardown_view(&self) -> Option<Seq<String>> {
        match self.teardown {
            Some(v) => Some(v@),
            None => None,
        }
    }

    /// A session for a child just spawned as `spawn_pid` in a `cols` ×
    /// `rows` terminal.
    pub fn new(kind: PtyKind, spawn_pid: Option<u32>, cols: u16, rows: u16) -> (r: PtySession)
        ensures
            r.kind_view() == kind,
            r.size_view() == (cols, rows),
            !r.finished_view(),
            !r.reaped_view(),
            !r.signalled_view(),
            r.pid_view() == spawn_pid,
            r.teardown_view() is None,
    {
        PtySession {
            kind,
            cols,
            rows,
            finished: false,
            reaped: false,
            signalled: false,
            spawn_pid,
            teardown: None,
        }
    }

    /// Attach a teardown command run once when the overlay closes.
    pub fn with_teardown(self, argv: Vec<String>) -> (r: PtySession)
        ensures
            r.teardown_view() == Some(argv@),
            r.kind_view() == self.kind_view() && r.size_view() == self.size_view() && r.finished_view() == self.finished_view(),
            r.reaped_view() == self.reaped_view(),
            r.signalled_view() == self.signalled_view(),
            r.pid_view() == self.pid_view(),
    {
        let mut s = self;
        s.teardown = Some(argv);
        s
    }

    /// The attached teardown argv, if any.
    pub fn teardown_argv(&self) -> (r: Option<&[String]>)
        ensures
            match self.teardown_view() {
                Some(v) => r matches Some(a) && a@ == v,
                None => r is None,
            },
    {
        match &self.teardown {
            Some(v) => Some(v.as_slice()),
            None => None,
        }
    }

    /// The leader has been seen exited and reaped.
    pub fn is_reaped(&self) -> (r: bool)
        ensures
            r == self.reaped_view(),
    {
        self.reaped
    }

    /// The process-group kill signal has been sent.
    pub fn group_signalled(&self) -> (r: bool)
        ensures
            r == self.signalled_view(),
    {
        self.signalled
    }

    /// Record the new terminal size.
    pub fn resize(&mut self, cols: u16, rows: u16)
        ensures
            final(self).size_view() == (cols, rows),
            final(self).kind_view() == old(self).kind_view(),
            final(self).finished_view() == old(self).finished_view(),
            final(self).reaped_view() == old(self).reaped_view(),
            final(self).signalled_view() == old(self).signalled_view(),
            final(self).pid_view() == old(self).pid_view(),
            final(self).teardown_view() == old(self).teardown_view(),
    {
        self.cols = cols;
        self.rows = rows;
    }

    /// The group to signal now, if any: the first call answers the pid
    /// captured at spawn, every later call nothing.
    pub fn signal_group(&mut self) -> (r: Option<u32>)
        ensures
            r == (if old(self).signalled_view() {
                None
            } else {
                old(self).pid_view()
            }),
            final(self).signalled_view(),
            final(self).reaped_view() == old(self).reaped_view(),
            final(self).pid_view() == old(self).pid_view(),
            final(self).teardown_view() == old(self).teardown_view(),
            final(self).finished_view() == old(self).finished_view(),
            final(self).kind_view() == old(self).kind_view(),
            final(self).size_view() == old(self).size_view(),
    {
        if self.signalled {
            return None;
        }
        self.signalled = true;
        self.spawn_pid
    }

    /// The child was seen running (`running`) or not: answers whether it
    /// is alive, and records the reap when it is not.
    pub fn observe_exit(&mut self, running: bool) -> (r: bool)
        ensures
            r == running,
            final(self).reaped_view() == (old(self).reaped_view() || !running),
            final(self).signalled_view() == old(self).signalled_view(),
            final(self).pid_view() == old(self).pid_view(),
            final(self).teardown_view() == old(self).teardown_view(),
            final(self).finished_view() == old(self).finished_view(),
            final(self).kind_view() == old(self).kind_view(),
    {
        if !running {
            self.reaped = true;
        }
        running
    }

    /// A one-shot child exited: linger, and clean its process group now,
    /// while the group id is still valid. Answers the group to signal.
    pub fn mark_finished(&mut self) -> (r: Option<u32>)
        ensures
            r == (if old(self).signalled_view() {
                None
            } else {
                old(self).pid_view()
            }),
            final(self).finished_view(),
            final(self).signalled_view(),
            final(self).reaped_view() == old(self).reaped_view(),
            final(self).pid_view() == old(self).pid_view(),
            final(self).teardown_view() == old(self).teardown_view(),
    {
        let r = self.signal_group();
        self.finished = true;
        r
    }

    /// Close the overlay: what to do, in order. The group is signalled at
    /// most once over the session, a reaped leader is never waited for
    /// again, and the teardown is handed out once.
    pub fn begin_kill(&mut self) -> (r: KillPlan)
        ensures
            r.signal_group == (if old(self).signalled_view() {
                None
            } else {
                old(self).pid_view()
            }),
            r.wait_for_leader == !old(self).reaped_view(),
            match old(self).teardown_view() {
                Some(v) => r.teardown matches Some(t) && t@ == v,
                None => r.teardown is None,
            },
            final(self).signalled_view(),
            final(self).reaped_view(),
            final(self).teardown_view() is None,
            final(self).pid_view() == old(self).pid_view(),
            final(self).finished_view() == old(self).finished_view(),
    {
        let signal_group = self.signal_group();
        let wait_for_leader = !self.reaped;
        self.reaped = true;
        let teardown = self.teardown.take();
        KillPlan { signal_group, wait_for_leader, teardown }
    }
}

} // verus!
