//! The record set of one backing file.
//!
//! A `Database` holds the tasks that were read from the file's bytes. Each
//! change returns the bytes that have to go to the file for it: a line to
//! put at its end, or the text that takes the place of all of it. Reading
//! the file and writing to it is the caller's part.

use vstd::prelude::*;
use vstd::utf8::encode_utf8;
use crate::codec::{
    decode, encode, encode_all, image_of, lemma_image_of_push, lemma_tasks_of_len, line_of, stored,
    task_in, tasks_from_rows,
};
use crate::error::TaskError;
use crate::record::{csv_records, read_records};
use crate::task::{all_valid, Task, TaskView};

verus! {

/// The tasks of a backing file, in the order of its records.
pub struct Database {
    /// The tasks, deleted ones among them.
    pub tasks: Vec<Task>,
    /// How many records of the file stood for no task when it was read,
    /// and were passed over.
    pub skipped: usize,
}

impl View for Database {
    type V = Seq<TaskView>;

    open spec fn view(&self) -> Seq<TaskView> {
        self.tasks.deep_view()
    }
}

/// Among `updates`, the last task with the given id.
pub open spec fn last_update(updates: Seq<TaskView>, id: u32) -> Option<TaskView>
    decreases updates.len(),
{
    if updates.len() == 0 {
        None
    } else if updates.last().id == id {
        Some(updates.last())
    } else {
        last_update(updates.drop_last(), id)
    }
}

/// The record set after `updates` were merged into it: each task for
/// whose id there is an update gives way to the last such update; the
/// others stay. Neither the number of tasks nor their order changes.
pub open spec fn merged(tasks: Seq<TaskView>, updates: Seq<TaskView>) -> Seq<TaskView> {
    Seq::new(
        tasks.len(),
        |i: int|
            match last_update(updates, tasks[i].id) {
                Some(update) => update,
                None => tasks[i],
            },
    )
}

/// An update that takes a task's place has that task's id.
proof fn lemma_last_update_id(updates: Seq<TaskView>, id: u32)
    ensures
        last_update(updates, id) matches Some(update) ==> update.id == id,
    decreases updates.len(),
{
    if updates.len() > 0 && updates.last().id != id {
        lemma_last_update_id(updates.drop_last(), id);
    }
}

/// Merging changes neither the number of tasks nor the id that stands at
/// any place, and leaves a task as it is where no update has its id.
pub proof fn lemma_merged_keeps_ids(tasks: Seq<TaskView>, updates: Seq<TaskView>)
    ensures
        merged(tasks, updates).len() == tasks.len(),
        forall|i: int|
            0 <= i < tasks.len() ==> (#[trigger] merged(tasks, updates)[i]).id == tasks[i].id,
        forall|i: int|
            0 <= i < tasks.len() && last_update(updates, tasks[i].id) is None ==> #[trigger] merged(
                tasks,
                updates,
            )[i] == tasks[i],
{
    assert forall|i: int| 0 <= i < tasks.len() implies (#[trigger] merged(tasks, updates)[i]).id
        == tasks[i].id by {
        lemma_last_update_id(updates, tasks[i].id);
    }
}

/// Copies the tasks.
pub fn copy_tasks(tasks: &Vec<Task>) -> (copy: Vec<Task>)
    ensures
        copy.deep_view() == tasks.deep_view(),
{
    let mut copy: Vec<Task> = Vec::new();
    let mut i: usize = 0;
    while i < tasks.len()
        invariant
            i <= tasks.len(),
            copy.deep_view() == tasks.deep_view().take(i as int),
        decreases tasks.len() - i,
    {
        let ghost before = copy.deep_view();
        let task = tasks[i].clone();
        copy.push(task);
        assert(copy.deep_view() =~= before.push(task@));
        assert(copy.deep_view() =~= tasks.deep_view().take(i + 1));
        i = i + 1;
    }
    assert(tasks.deep_view().take(i as int) =~= tasks.deep_view());
    copy
}

impl Database {
    /// Whether every task of the record set is what it says. A record set
    /// that was read from a file is so, and the three commands keep it so.
    pub open spec fn well_formed(&self) -> bool {
        all_valid(self@)
    }

    /// The record set of a file that holds nothing yet.
    pub fn new() -> (db: Database)
        ensures
            db@ == Seq::<TaskView>::empty(),
            db.skipped == 0,
            db.well_formed(),
    {
        let db = Database { tasks: Vec::new(), skipped: 0 };
        assert(db@ =~= Seq::<TaskView>::empty());
        db
    }

    /// Reads the record set from the bytes of its file: every record that
    /// stands for a task, in the order of the file. A record that stands
    /// for none is passed over and counted.
    pub fn load(data: &[u8]) -> (db: Database)
        ensures
            db@ == stored(data@),
            db.skipped == csv_records(data@).len() - stored(data@).len(),
            db.well_formed(),
    {
        let rows = read_records(data);
        let tasks = tasks_from_rows(&rows);
        proof {
            lemma_tasks_of_len(rows.deep_view());
        }
        let skipped = rows.len() - tasks.len();
        Database { tasks, skipped }
    }

    /// All the tasks, in the order of the file.
    pub fn read_tasks(&self) -> (tasks: Vec<Task>)
        ensures
            tasks.deep_view() == self@,
    {
        copy_tasks(&self.tasks)
    }

    /// Puts a task at the end of the record set, and returns the line that
    /// has to go to the end of the file. The line holds the one record of
    /// the task; with it at its end, the text that held the record set
    /// holds the new one.
    pub fn add_task(&mut self, task: Task) -> (r: Result<Vec<u8>, TaskError>)
        ensures
            r matches Ok(line) && {
                &&& final(self)@ == old(self)@.push(task@)
                &&& final(self).skipped == old(self).skipped
                &&& line@ == line_of(task@)
                &&& image_of(final(self)@) == image_of(old(self)@) + line@
                &&& task@.valid() ==> stored(line@) == seq![task@]
                &&& task@.valid() ==> task_in(line@) == Some(task@)
            },
    {
        proof {
            lemma_image_of_push(self@, task@);
        }
        match encode(&task) {
            Ok(line) => {
                self.tasks.push(task);
                assert(self@ =~= old(self)@.push(task@));
                Ok(line)
            },
            Err(e) => Err(e),
        }
    }

    /// Makes `tasks` the record set, and returns the text that has to take
    /// the place of the file's. Read again, the text holds the new record
    /// set, if its tasks are what they say.
    pub fn rewrite_all(&mut self, tasks: Vec<Task>) -> (r: Result<Vec<u8>, TaskError>)
        ensures
            r matches Ok(image) && {
                &&& final(self)@ == tasks.deep_view()
                &&& final(self).skipped == 0
                &&& image@ == image_of(final(self)@)
                &&& final(self).well_formed() ==> stored(image@) == final(self)@
            },
    {
        match encode_all(&tasks) {
            Ok(image) => {
                self.tasks = tasks;
                self.skipped = 0;
                Ok(image)
            },
            Err(e) => Err(e),
        }
    }

    /// Merges `updates` into the record set, by id, and returns the text
    /// that has to take the place of the file's. Read again, the text
    /// holds the new record set, if its tasks are what they say.
    pub fn update_task(&mut self, updates: Vec<Task>) -> (r: Result<Vec<u8>, TaskError>)
        ensures
            r matches Ok(image) && {
                &&& final(self)@ == merged(old(self)@, updates.deep_view())
                &&& final(self).skipped == 0
                &&& image@ == image_of(final(self)@)
                &&& final(self).well_formed() ==> stored(image@) == final(self)@
            },
    {
        let mut next: Vec<Task> = Vec::new();
        let mut i: usize = 0;
        while i < self.tasks.len()
            invariant
                *self == *old(self),
                i <= self.tasks.len(),
                next.deep_view() == merged(self@, updates.deep_view()).take(i as int),
            decreases self.tasks.len() - i,
        {
            let id = self.tasks[i].id;
            let mut chosen = self.tasks[i].clone();
            let mut j: usize = 0;
            assert(updates.deep_view().take(0) =~= Seq::empty());
            while j < updates.len()
                invariant
                    j <= updates.len(),
                    i < self.tasks.len(),
                    id == self.tasks[i as int].id,
                    chosen@ == match last_update(updates.deep_view().take(j as int), id) {
                        Some(update) => update,
                        None => self.tasks[i as int]@,
                    },
                decreases updates.len() - j,
            {
                let ghost upto = updates.deep_view().take(j + 1);
                assert(upto.drop_last() =~= updates.deep_view().take(j as int));
                assert(upto.last() == updates[j as int]@);
                if updates[j].id == id {
                    chosen = updates[j].clone();
                }
                j = j + 1;
            }
            assert(updates.deep_view().take(j as int) =~= updates.deep_view());
            let ghost before = next.deep_view();
            let ghost last = chosen@;
            next.push(chosen);
            assert(next.deep_view() =~= before.push(last));
            assert(next.deep_view() =~= merged(self@, updates.deep_view()).take(i + 1));
            i = i + 1;
        }
        assert(merged(self@, updates.deep_view()).take(i as int) =~= merged(
            self@,
            updates.deep_view(),
        ));
        self.rewrite_all(next)
    }

    /// Reads the task that the first record of `line` stands for. A line
    /// break at the end of the line is the reader's matter, as the
    /// quotes are.
    pub fn parse_task_line(line: &str) -> (r: Option<Task>)
        ensures
            r.deep_view() == task_in(encode_utf8(line@)),
            r matches Some(task) ==> task@.valid(),
    {
        decode(line.as_bytes())
    }
}

} // verus!
