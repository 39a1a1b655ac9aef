use vstd::prelude::*;

verus! {

/// The clock ticks of a task: how many it has run, how many its time slice
/// has left.
#[derive(Debug, Clone, Copy, PartialEq, Eq, Structural)]
pub struct TaskTicks {
    pub elapsed_ticks: u32,
    pub left_ticks: u8,
}

/// On a clock tick: the running task has run one tick more, and its slice
/// one tick less; when the slice had nothing left, another task must be
/// scheduled (the result is true).
pub fn check_task_schedule(ticks: &mut TaskTicks) -> (schedule: bool)
    requires
        old(ticks).elapsed_ticks < u32::MAX,
    ensures
        final(ticks).elapsed_ticks == old(ticks).elapsed_ticks + 1,
        schedule == (old(ticks).left_ticks == 0),
        final(ticks).left_ticks == (if old(ticks).left_ticks > 0 {
            old(ticks).left_ticks - 1
        } else {
            0
        }),
{
    ticks.elapsed_ticks = ticks.elapsed_ticks + 1;
    if ticks.left_ticks > 0 {
        ticks.left_ticks = ticks.left_ticks - 1;
        false
    } else {
        true
    }
}

/// What a task is doing.
#[derive(Debug, Clone, Copy, PartialEq, Eq, Structural)]
pub enum TaskStatus {
    TaskRunning,
    TaskReady,
    TaskBlocked,
    TaskWaiting,
    TaskHanging,
}

/// What the scheduler keeps of a task: its status, its ticks, and the
/// length of a full time slice.
#[derive(Debug, Clone, Copy, PartialEq, Eq, Structural)]
pub struct SchedTask {
    pub status: TaskStatus,
    pub ticks: TaskTicks,
    pub priority: u8,
}

/// The ready queue once the current task `cur`, numbered `cur_id`, has been
/// put back (when it was running) and, were it then empty, the idle task
/// `idle_id` woken.
pub open spec fn queue_to_pick(cur: SchedTask, cur_id: u32, ready: Seq<u32>, idle_id: u32) -> Seq<u32> {
    let q = if cur.status == TaskStatus::TaskRunning {
        ready.push(cur_id)
    } else {
        ready
    };
    if q.len() == 0 {
        seq![idle_id]
    } else {
        q
    }
}

/// Switches tasks. A current task that was running goes to the back of the
/// ready queue as ready, with a full time slice again; when the queue is
/// then empty, the idle task is woken into it. The task at the front is
/// taken off the queue and returned: it is the one to run next.
pub fn schedule(cur: &mut SchedTask, cur_id: u32, ready: &mut Vec<u32>, idle_id: u32) -> (next: u32)
    requires
        old(ready)@.len() < usize::MAX,
    ensures
        next == queue_to_pick(*old(cur), cur_id, old(ready)@, idle_id)[0],
        final(ready)@ == queue_to_pick(*old(cur), cur_id, old(ready)@, idle_id).drop_first(),
        old(cur).status == TaskStatus::TaskRunning ==> *final(cur) == (SchedTask {
            status: TaskStatus::TaskReady,
            ticks: TaskTicks { elapsed_ticks: old(cur).ticks.elapsed_ticks, left_ticks: old(cur).priority },
            priority: old(cur).priority,
        }),
        old(cur).status != TaskStatus::TaskRunning ==> *final(cur) == *old(cur),
{
    if cur.status == TaskStatus::TaskRunning {
        ready.push(cur_id);
        cur.ticks.left_ticks = cur.priority;
        cur.status = TaskStatus::TaskReady;
    }
    if ready.len() == 0 {
        ready.push(idle_id);
    }
    ready.remove(0)
}

/// Blocks the current task: it takes `status` (blocked, waiting or hanging)
/// and the scheduler picks the next task (see `schedule`).
pub fn block_thread(cur: &mut SchedTask, cur_id: u32, status: TaskStatus, ready: &mut Vec<u32>, idle_id: u32) -> (next: u32)
    requires
        status == TaskStatus::TaskBlocked || status == TaskStatus::TaskWaiting || status == TaskStatus::TaskHanging,
        old(ready)@.len() < usize::MAX,
    ensures
        *final(cur) == (SchedTask { status, ..*old(cur) }),
        next == queue_to_pick(SchedTask { status, ..*old(cur) }, cur_id, old(ready)@, idle_id)[0],
        final(ready)@ == queue_to_pick(SchedTask { status, ..*old(cur) }, cur_id, old(ready)@, idle_id).drop_first(),
{
    cur.status = status;
    schedule(cur, cur_id, ready, idle_id)
}

/// Round robin: the task at the front of the ready queue runs next and the
/// others keep their order, a running current task joining them at the
/// back. With no task ready, a running current task runs again; only when
/// no task is ready at all does the idle task run.
pub proof fn lemma_schedule_round_robin(cur: SchedTask, cur_id: u32, ready: Seq<u32>, idle_id: u32)
    ensures
        queue_to_pick(cur, cur_id, ready, idle_id).len() >= 1,
        ready.len() > 0 ==> queue_to_pick(cur, cur_id, ready, idle_id)[0] == ready[0],
        ready.len() > 0 && cur.status == TaskStatus::TaskRunning ==> queue_to_pick(cur, cur_id, ready, idle_id).drop_first()
            == ready.drop_first().push(cur_id),
        ready.len() > 0 && cur.status != TaskStatus::TaskRunning ==> queue_to_pick(cur, cur_id, ready, idle_id).drop_first()
            == ready.drop_first(),
        ready.len() == 0 && cur.status == TaskStatus::TaskRunning ==> queue_to_pick(cur, cur_id, ready, idle_id)[0] == cur_id
            && queue_to_pick(cur, cur_id, ready, idle_id).len() == 1,
        ready.len() == 0 && cur.status != TaskStatus::TaskRunning ==> queue_to_pick(cur, cur_id, ready, idle_id)
            == seq![idle_id],
{
    let q = queue_to_pick(cur, cur_id, ready, idle_id);
    if ready.len() > 0 && cur.status == TaskStatus::TaskRunning {
        assert(q.drop_first() =~= ready.drop_first().push(cur_id));
    }
}

} // verus!
