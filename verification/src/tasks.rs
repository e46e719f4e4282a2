//! The books that are kept of background tasks: which are running, which
//! are done, and whether another may start.

use vstd::prelude::*;
use vstd::string::*;
use vstd::utf8::{encode_utf8, is_char_boundary};
use crate::widgets::{decimal, push_decimal};

verus! {

/// How many tasks may run at once.
pub const MAX_ACTIVE_TASKS: usize = 10;

/// Longest name shown in full, in bytes.
pub const NAME_LIMIT: usize = 30;

/// Bytes kept of a name that is cut.
pub const NAME_KEPT: usize = 27;

/// Status of a background task.
pub enum TaskStatus {
    Running,
    Completed(String),
    Failed(String),
}

/// A background task being tracked.
pub struct BackgroundTask {
    pub id: u64,
    pub name: String,
    pub status: TaskStatus,
    /// When the task began, in seconds of a monotonic clock.
    pub started_secs: u64,
}

/// Keeps the books of background tasks.
pub struct TaskManager {
    tasks: Vec<BackgroundTask>,
    next_id: u64,
    max_tasks: usize,
}

/// How many of the tasks are running.
pub open spec fn running_of(tasks: Seq<BackgroundTask>) -> nat
    decreases tasks.len(),
{
    if tasks.len() == 0 {
        0
    } else if tasks.last().status is Running {
        running_of(tasks.drop_last()) + 1
    } else {
        running_of(tasks.drop_last())
    }
}

/// How many of the tasks have completed.
pub open spec fn completed_of(tasks: Seq<BackgroundTask>) -> nat
    decreases tasks.len(),
{
    if tasks.len() == 0 {
        0
    } else if tasks.last().status is Completed {
        completed_of(tasks.drop_last()) + 1
    } else {
        completed_of(tasks.drop_last())
    }
}

/// Index of the first task with the id, or the number of tasks.
pub open spec fn task_index(tasks: Seq<BackgroundTask>, id: u64) -> int
    decreases tasks.len(),
{
    if tasks.len() == 0 {
        0
    } else if tasks[0].id == id {
        0
    } else {
        1 + task_index(tasks.drop_first(), id)
    }
}

/// The name under which a task is shown: the text itself up to 30 bytes,
/// else its first 27 bytes and three dots.
pub open spec fn short_name_spec(text: Seq<char>) -> Seq<char> {
    if encode_utf8(text).len() > NAME_LIMIT {
        vstd::utf8::decode_utf8(encode_utf8(text).subrange(0, NAME_KEPT as int)) + "..."@
    } else {
        text
    }
}

/// The summary of the books: "(none)" where nothing runs and nothing is
/// done, else both counts.
pub open spec fn summary_spec(active: nat, done: nat) -> Seq<char> {
    if active == 0 && done == 0 {
        "(none)"@
    } else {
        decimal(active) + " active, "@ + decimal(done) + " done"@
    }
}

/// Cuts a name down for display. A long text has to have a character
/// boundary at byte 27, where it is cut.
pub fn short_name(text: &str) -> (name: String)
    requires
        encode_utf8(text@).len() > NAME_LIMIT ==> is_char_boundary(
            encode_utf8(text@),
            NAME_KEPT as int,
        ),
    ensures
        name@ == short_name_spec(text@),
{
    if text.as_bytes().len() > NAME_LIMIT {
        let parts = text.split_at(NAME_KEPT);
        proof {
            vstd::utf8::encode_utf8_valid_utf8(text@);
            vstd::utf8::valid_utf8_split(encode_utf8(text@), NAME_KEPT as int);
            vstd::utf8::encode_utf8_decode_utf8(parts.0@);
        }
        let mut name = String::from_str(parts.0);
        name.append("...");
        name
    } else {
        String::from_str(text)
    }
}

/// The books as the list of their tasks, in the order they were spawned.
/// The id that the next task gets and the limit on running tasks are not
/// part of the list: they are `next_id` and `max_tasks`, and the contracts
/// speak of them by name.
impl View for TaskManager {
    type V = Seq<BackgroundTask>;

    closed spec fn view(&self) -> Seq<BackgroundTask> {
        self.tasks@
    }
}

impl TaskManager {
    /// The id that the next task gets.
    pub closed spec fn next_id(&self) -> u64 {
        self.next_id
    }

    /// How many tasks may run at once.
    pub closed spec fn max_tasks(&self) -> usize {
        self.max_tasks
    }

    /// Empty books, with room for ten running tasks.
    pub fn new() -> (m: TaskManager)
        ensures
            m@.len() == 0,
            m.next_id() == 1,
            m.max_tasks() == MAX_ACTIVE_TASKS,
    {
        TaskManager { tasks: Vec::new(), next_id: 1, max_tasks: MAX_ACTIVE_TASKS }
    }

    /// Count of currently running tasks.
    pub fn active_count(&self) -> (n: usize)
        ensures
            n == running_of(self@),
    {
        let len: usize = self.tasks.len();
        let mut n: usize = 0;
        let mut i: usize = 0;
        while i < len
            invariant
                len == self.tasks@.len(),
                i <= len,
                n <= i,
                n == running_of(self.tasks@.subrange(0, i as int)),
            decreases len - i,
        {
            let ghost next = self.tasks@.subrange(0, i as int + 1);
            assert(next.drop_last() =~= self.tasks@.subrange(0, i as int));
            assert(next.last() == self.tasks@[i as int]);
            match self.tasks[i].status {
                TaskStatus::Running => {
                    n = n + 1;
                },
                _ => {},
            }
            i = i + 1;
        }
        assert(self.tasks@.subrange(0, len as int) =~= self.tasks@);
        n
    }

    /// Count of completed tasks.
    pub fn completed_count(&self) -> (n: usize)
        ensures
            n == completed_of(self@),
    {
        let len: usize = self.tasks.len();
        let mut n: usize = 0;
        let mut i: usize = 0;
        while i < len
            invariant
                len == self.tasks@.len(),
                i <= len,
                n <= i,
                n == completed_of(self.tasks@.subrange(0, i as int)),
            decreases len - i,
        {
            let ghost next = self.tasks@.subrange(0, i as int + 1);
            assert(next.drop_last() =~= self.tasks@.subrange(0, i as int));
            assert(next.last() == self.tasks@[i as int]);
            match self.tasks[i].status {
                TaskStatus::Completed(_) => {
                    n = n + 1;
                },
                _ => {},
            }
            i = i + 1;
        }
        assert(self.tasks@.subrange(0, len as int) =~= self.tasks@);
        n
    }

    /// The counts of running and of completed tasks.
    pub fn counts(&self) -> (c: (usize, usize))
        ensures
            c.0 == running_of(self@),
            c.1 == completed_of(self@),
    {
        (self.active_count(), self.completed_count())
    }

    /// Summary string for the sidebar.
    pub fn summary(&self) -> (s: String)
        ensures
            s@ == summary_spec(running_of(self@), completed_of(self@)),
    {
        let active: usize = self.active_count();
        let done: usize = self.completed_count();
        let mut out = String::new();
        if active == 0 && done == 0 {
            out.append("(none)");
        } else {
            push_decimal(&mut out, active as u64);
            out.append(" active, ");
            push_decimal(&mut out, done as u64);
            out.append(" done");
        }
        assert(out@ =~= summary_spec(active as nat, done as nat));
        out
    }

    /// Enters a task that begins at `now_secs` and returns its id, or
    /// nothing where as many tasks are running as may.
    pub fn begin(&mut self, name: String, now_secs: u64) -> (id: Option<u64>)
        requires
            old(self).next_id() < u64::MAX,
        ensures
            id is Some <==> running_of(old(self)@) < old(self).max_tasks(),
            id is None ==> final(self)@ == old(self)@ && final(self).next_id() == old(
                self,
            ).next_id(),
            id matches Some(i) ==> {
                &&& i == old(self).next_id()
                &&& final(self).next_id() == i + 1
                &&& final(self)@.len() == old(self)@.len() + 1
                &&& final(self)@.drop_last() == old(self)@
                &&& final(self)@.last().id == i
                &&& final(self)@.last().name == name
                &&& final(self)@.last().status is Running
                &&& final(self)@.last().started_secs == now_secs
            },
            final(self).max_tasks() == old(self).max_tasks(),
    {
        if self.active_count() >= self.max_tasks {
            return None;
        }
        let id: u64 = self.next_id;
        self.next_id = self.next_id + 1;
        self.tasks.push(
            BackgroundTask { id, name, status: TaskStatus::Running, started_secs: now_secs },
        );
        assert(self.tasks@.drop_last() =~= old(self).tasks@);
        Some(id)
    }

    fn find(&self, id: u64) -> (at: usize)
        ensures
            at == task_index(self@, id),
            at <= self@.len(),
    {
        let n: usize = self.tasks.len();
        let mut i: usize = 0;
        assert(self.tasks@.subrange(0, n as int) =~= self.tasks@);
        while i < n && self.tasks[i].id != id
            invariant
                n == self.tasks@.len(),
                i <= n,
                task_index(self.tasks@, id) == i + task_index(
                    self.tasks@.subrange(i as int, n as int),
                    id,
                ),
            decreases n - i,
        {
            assert(self.tasks@.subrange(i as int, n as int).drop_first() =~= self.tasks@.subrange(
                i as int + 1,
                n as int,
            ));
            i = i + 1;
        }
        i
    }

    /// Books the task with the id as completed. An unknown id changes
    /// nothing.
    pub fn complete(&mut self, id: u64)
        ensures
            final(self)@.len() == old(self)@.len(),
            forall|i: int|
                0 <= i < old(self)@.len() && i != task_index(old(self)@, id) ==> final(self)@[i]
                    == old(self)@[i],
            task_index(old(self)@, id) < old(self)@.len() ==> {
                let at = task_index(old(self)@, id);
                &&& final(self)@[at].status matches TaskStatus::Completed(note) && note@ == "done"@
                &&& final(self)@[at].id == old(self)@[at].id
                &&& final(self)@[at].name == old(self)@[at].name
                &&& final(self)@[at].started_secs == old(self)@[at].started_secs
            },
            final(self).next_id() == old(self).next_id(),
            final(self).max_tasks() == old(self).max_tasks(),
    {
        let at: usize = self.find(id);
        if at < self.tasks.len() {
            self.tasks[at].status = TaskStatus::Completed(String::from_str("done"));
        }
    }

    /// Books the task with the id as failed, with the error it failed on.
    /// An unknown id changes nothing.
    pub fn fail(&mut self, id: u64, error: String)
        ensures
            final(self)@.len() == old(self)@.len(),
            forall|i: int|
                0 <= i < old(self)@.len() && i != task_index(old(self)@, id) ==> final(self)@[i]
                    == old(self)@[i],
            task_index(old(self)@, id) < old(self)@.len() ==> {
                let at = task_index(old(self)@, id);
                &&& final(self)@[at].status == TaskStatus::Failed(error)
                &&& final(self)@[at].id == old(self)@[at].id
                &&& final(self)@[at].name == old(self)@[at].name
                &&& final(self)@[at].started_secs == old(self)@[at].started_secs
            },
            final(self).next_id() == old(self).next_id(),
            final(self).max_tasks() == old(self).max_tasks(),
    {
        let at: usize = self.find(id);
        if at < self.tasks.len() {
            self.tasks[at].status = TaskStatus::Failed(error);
        }
    }
}

} // verus!
