//! The task store: tasks in the order they were added, and the counter that
//! hands out their identifiers.

use crate::error::TaskError;
use crate::task::{Task, TaskView};
use crate::text::{is_blank, lemma_trimmed, lemma_trimmed_idempotent, trim, trimmed};
use vstd::prelude::*;

verus! {

/// What a store is, as plain mathematical values.
pub struct StoreView {
    /// The tasks, in the order they were added.
    pub tasks: Seq<TaskView>,
    /// The identifier that the next task will get.
    pub next_id: nat,
}

/// The views of a sequence of tasks, one for one.
pub open spec fn views(tasks: Seq<Task>) -> Seq<TaskView> {
    tasks.map_values(|t: Task| t@)
}

/// `task` with its flag set.
pub open spec fn done(task: TaskView) -> TaskView {
    TaskView { id: task.id, description: task.description, completed: true }
}

impl StoreView {
    /// The store before anything was added.
    pub open spec fn empty() -> StoreView {
        StoreView { tasks: Seq::empty(), next_id: 1 }
    }

    /// The store's invariant: the tasks are numbered 1, 2, 3, ... in the order
    /// they were added, the counter is one past the last, and every
    /// description is non-empty text without surrounding whitespace.
    pub open spec fn valid(self) -> bool {
        &&& self.next_id == self.tasks.len() + 1
        &&& forall|i: int| 0 <= i < self.tasks.len() ==> (#[trigger] self.tasks[i]).id == i + 1
        &&& forall|i: int|
            0 <= i < self.tasks.len() ==> (#[trigger] self.tasks[i]).description.len() > 0
                && trimmed(self.tasks[i].description) == self.tasks[i].description
    }

    /// Whether some task has the identifier `id`.
    pub open spec fn has(self, id: nat) -> bool {
        exists|i: int| 0 <= i < self.tasks.len() && (#[trigger] self.tasks[i]).id == id
    }

    /// The store after `description` was offered as a new task: unchanged if
    /// the description is blank, else with one more task at the end, not yet
    /// done, holding the trimmed description under the counter's value.
    pub open spec fn with_added(self, description: Seq<char>) -> StoreView {
        if is_blank(description) {
            self
        } else {
            StoreView {
                tasks: self.tasks.push(
                    TaskView {
                        id: self.next_id,
                        description: trimmed(description),
                        completed: false,
                    },
                ),
                next_id: self.next_id + 1,
            }
        }
    }

    /// The store after the task `id` was marked as done: every task with that
    /// identifier has its flag set, and nothing else differs.
    pub open spec fn with_completed(self, id: nat) -> StoreView {
        StoreView {
            tasks: Seq::new(
                self.tasks.len(),
                |i: int|
                    if self.tasks[i].id == id {
                        done(self.tasks[i])
                    } else {
                        self.tasks[i]
                    },
            ),
            next_id: self.next_id,
        }
    }
}

/// An in-memory collection of tasks with the counter for their identifiers.
pub struct TaskStore {
    tasks: Vec<Task>,
    next_id: usize,
}

impl View for TaskStore {
    type V = StoreView;

    closed spec fn view(&self) -> StoreView {
        StoreView { tasks: views(self.tasks@), next_id: self.next_id as nat }
    }
}

impl TaskStore {
    /// A store without tasks, whose first task will get the identifier 1.
    pub fn new() -> (store: TaskStore)
        ensures
            store@ == StoreView::empty(),
            store@.valid(),
    {
        let store = TaskStore { tasks: Vec::new(), next_id: 1 };
        assert(store@.tasks =~= Seq::<TaskView>::empty());
        store
    }

    /// The identifier that the next task will get.
    pub fn next_id(&self) -> (id: usize)
        ensures
            id == self@.next_id,
    {
        self.next_id
    }

    /// The number of tasks.
    pub fn len(&self) -> (n: usize)
        ensures
            n == self@.tasks.len(),
    {
        self.tasks.len()
    }

    /// Whether the store holds no task.
    pub fn is_empty(&self) -> (b: bool)
        ensures
            b == (self@.tasks.len() == 0),
    {
        self.tasks.len() == 0
    }

    /// All tasks, in the order they were added.
    pub fn list(&self) -> (tasks: &Vec<Task>)
        ensures
            views(tasks@) == self@.tasks,
            tasks@.len() == self@.tasks.len(),
            forall|i: int| 0 <= i < tasks@.len() ==> (#[trigger] tasks@[i])@ == self@.tasks[i],
    {
        &self.tasks
    }

    /// Adds a task for `description`, trimmed, and returns its identifier. A
    /// blank description is turned down and leaves the store as it was.
    pub fn add(&mut self, description: &str) -> (r: Result<usize, TaskError>)
        requires
            old(self)@.valid(),
            !is_blank(description@) ==> old(self)@.next_id < usize::MAX,
        ensures
            final(self)@ == old(self)@.with_added(description@),
            final(self)@.valid(),
            r == if is_blank(description@) {
                Err::<usize, TaskError>(TaskError::EmptyDescription)
            } else {
                Ok::<usize, TaskError>(old(self)@.next_id as usize)
            },
    {
        let text = trim(description);
        proof {
            lemma_trimmed(description@);
            lemma_trimmed_idempotent(description@);
        }
        if text.unicode_len() == 0 {
            return Err(TaskError::EmptyDescription);
        }
        let id: usize = self.next_id;
        self.tasks.push(Task::new(id, text.to_owned()));
        self.next_id = id + 1;
        proof {
            assert(self@.tasks =~= old(self)@.with_added(description@).tasks);
        }
        Ok(id)
    }

    /// Marks the task `id` as done. Doing so again changes nothing. Without
    /// such a task the store stays as it was.
    pub fn complete(&mut self, id: usize) -> (r: Result<(), TaskError>)
        requires
            old(self)@.valid(),
        ensures
            final(self)@.valid(),
            r is Ok <==> old(self)@.has(id as nat),
            r is Ok ==> final(self)@ == old(self)@.with_completed(id as nat),
            r is Err ==> r == Err::<(), TaskError>(TaskError::TaskNotFound(id)) && final(self)@
                == old(self)@,
    {
        let n: usize = self.tasks.len();
        let mut i: usize = 0;
        while i < n
            invariant
                n == self.tasks.len(),
                0 <= i <= n,
                *self == *old(self),
                old(self)@.valid(),
                forall|j: int| 0 <= j < i ==> self.tasks@[j].id != id,
            decreases n - i,
        {
            if self.tasks[i].id == id {
                self.tasks[i].completed = true;
                proof {
                    let before = old(self)@;
                    let after = before.with_completed(id as nat);
                    assert(before.tasks[i as int].id == id);
                    assert(self@.tasks =~= after.tasks);
                }
                return Ok(());
            }
            i = i + 1;
        }
        Err(TaskError::TaskNotFound(id))
    }
}

} // verus!
