//! The work queue: periodic work items keyed by name. Commands (add,
//! remove, remove all) are drained before any work of a tick runs; a work
//! is due when it is activated, not running, and its period has elapsed
//! since the last execution.

use vstd::prelude::*;
use crate::bytesutil::eq_bytes;

verus! {

/// At most this many works are scheduled at once.
pub const WORK_QUEUE_LENGTH: usize = 10;

/// One scheduled work item. (The body it runs lives with the executor; the
/// scheduler decides only when it runs.)
pub struct MenderSchedulerWorkContext {
    pub name: Vec<u8>,
    pub period: u32,
    pub activated: bool,
    pub is_executing: bool,
    pub execution_count: u32,
    pub last_execution: Option<u64>,
}

/// A command to the scheduler.
pub enum SchedulerCommand {
    AddWork(MenderSchedulerWorkContext),
    RemoveWork(Vec<u8>),
    RemoveAllWorks,
}

impl MenderSchedulerWorkContext {
    /// A fresh work item: not activated, never run.
    pub fn new(name: Vec<u8>, period: u32) -> (r: MenderSchedulerWorkContext)
        ensures
            r.name@ == name@,
            r.period == period,
            !r.activated,
            !r.is_executing,
            r.execution_count == 0,
            r.last_execution is None,
    {
        MenderSchedulerWorkContext {
            name,
            period,
            activated: false,
            is_executing: false,
            execution_count: 0,
            last_execution: None,
        }
    }

    /// Marks the work ready to run.
    pub fn activate(&mut self)
        ensures
            *final(self) == (MenderSchedulerWorkContext { activated: true, ..*old(self) }),
    {
        self.activated = true;
    }

    /// Changes the period.
    pub fn set_period(&mut self, period: u32)
        ensures
            *final(self) == (MenderSchedulerWorkContext { period, ..*old(self) }),
    {
        self.period = period;
    }

    /// Whether the work is due at `now_ms`: activated, not running, and
    /// either never run or run at least its period (in seconds) ago.
    pub fn should_execute(&self, now_ms: u64) -> (r: bool)
        requires
            match self.last_execution {
                Some(t) => t <= now_ms,
                None => true,
            },
        ensures
            r == (self.activated && !self.is_executing && match self.last_execution {
                Some(t) => now_ms - t >= self.period as u64 * 1000,
                None => true,
            }),
    {
        if !self.activated || self.is_executing {
            return false;
        }
        match self.last_execution {
            Some(t) => now_ms - t >= (self.period as u64) * 1000,
            None => true,
        }
    }
}

/// Applies one scheduler command to the work list; all queued commands are
/// drained this way before any work of the tick runs. An added work is
/// dropped when its name is already scheduled or the queue is full; a
/// removal takes out the first work of that name.
pub fn apply_command(works: &mut Vec<MenderSchedulerWorkContext>, cmd: SchedulerCommand)
    ensures
        match cmd {
            SchedulerCommand::AddWork(w) => {
                if (exists|i: int|
                    0 <= i < old(works)@.len() && (#[trigger] old(works)@[i]).name@ == w.name@)
                    || old(works)@.len() >= WORK_QUEUE_LENGTH {
                    final(works)@ == old(works)@
                } else {
                    final(works)@ == old(works)@.push(w)
                }
            },
            SchedulerCommand::RemoveWork(name) => {
                if exists|i: int|
                    0 <= i < old(works)@.len() && (#[trigger] old(works)@[i]).name@ == name@ {
                    exists|i: int|
                        {
                            &&& 0 <= i < old(works)@.len()
                            &&& (#[trigger] old(works)@[i]).name@ == name@
                            &&& forall|j: int| 0 <= j < i ==> (#[trigger] old(works)@[j]).name@
                                != name@
                            &&& final(works)@ == old(works)@.remove(i)
                        }
                } else {
                    final(works)@ == old(works)@
                }
            },
            SchedulerCommand::RemoveAllWorks => final(works)@.len() == 0,
        },
{
    match cmd {
        SchedulerCommand::AddWork(w) => {
            let n: usize = works.len();
            let mut i: usize = 0;
            while i < n
                invariant
                    i <= n,
                    n == works@.len(),
                    works == old(works),
                    cmd == SchedulerCommand::AddWork(w),
                    forall|j: int| 0 <= j < i ==> (#[trigger] works@[j]).name@ != w.name@,
                decreases n - i,
            {
                if eq_bytes(works[i].name.as_slice(), w.name.as_slice()) {
                    proof {
                        assert((old(works)@[i as int]).name@ == w.name@);
                    }
                    return ;
                }
                i = i + 1;
            }
            if works.len() >= WORK_QUEUE_LENGTH {
                return ;
            }
            works.push(w);
        },
        SchedulerCommand::RemoveWork(name) => {
            let n: usize = works.len();
            let mut i: usize = 0;
            while i < n
                invariant
                    i <= n,
                    n == works@.len(),
                    works == old(works),
                    cmd == SchedulerCommand::RemoveWork(name),
                    forall|j: int| 0 <= j < i ==> (#[trigger] works@[j]).name@ != name@,
                decreases n - i,
            {
                if eq_bytes(works[i].name.as_slice(), name.as_slice()) {
                    proof {
                        assert((old(works)@[i as int]).name@ == name@);
                    }
                    works.remove(i);
                    return ;
                }
                i = i + 1;
            }
        },
        SchedulerCommand::RemoveAllWorks => {
            works.clear();
        },
    }
}

} // verus!
