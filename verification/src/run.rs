//! The three commands: add a task, list the tasks, remove tasks.
//!
//! A command gets the words of its command line as `args`: the program's
//! name, the command's name, then the words that are the command's own.
//! It works on the record set alone; what it returns says what goes to
//! the backing file, and what there is to print.

use vstd::prelude::*;
use crate::codec::{image_of, line_of, stored, task_in};
use crate::database::Database;
use crate::decimal::{decimal, render_number};
use crate::error::TaskError;
use crate::lifecycle::{
    ids_ascend, join_from, joined, lemma_new_task_ascends, lemma_removed_keeps_order, listed,
    new_task, next_id, next_id_for, removed, requested, requested_ids, strike, visible,
    words_from,
};
use crate::task::{Status, Task, TaskView};

verus! {

/// A task that was added, and the line that stands for it.
pub struct Added {
    /// The new task.
    pub task: Task,
    /// The line that has to go to the end of the backing file.
    pub record: Vec<u8>,
}

/// What a listing gives.
pub enum Listing {
    /// There is nothing to show.
    Empty,
    /// The lines to show, one for each task that is not deleted.
    Lines(Vec<String>),
}

/// The line that a listing shows for a task: the status's sign, the id
/// and the content, with a tab between them.
pub open spec fn shown(task: TaskView) -> Seq<char> {
    task.status.marker() + seq!['\t'] + decimal(task.id as nat) + seq!['\t'] + task.content
}

/// Why `add` does no work on the given arguments and record set, if it
/// does none.
pub open spec fn add_fault(args: Seq<Seq<char>>, tasks: Seq<TaskView>) -> Option<TaskError> {
    if args.len() < 3 {
        Some(TaskError::Usage)
    } else if next_id(tasks) > u32::MAX {
        Some(TaskError::IdsExhausted)
    } else {
        None
    }
}

/// Why `rm` does no work on the given arguments and record set, if it
/// does none.
pub open spec fn rm_fault(args: Seq<Seq<char>>, tasks: Seq<TaskView>) -> Option<TaskError> {
    if args.len() < 3 {
        Some(TaskError::Usage)
    } else {
        match requested(words_from(args, 2), tasks) {
            Err(e) => Some(e),
            Ok(_) => None,
        }
    }
}

/// The ids that `rm` is asked to delete.
pub open spec fn rm_ids(args: Seq<Seq<char>>, tasks: Seq<TaskView>) -> Seq<u32> {
    match requested(words_from(args, 2), tasks) {
        Ok(ids) => ids,
        Err(_) => Seq::empty(),
    }
}

/// Writes the line that a listing shows for a task.
pub fn show(task: &Task) -> (line: String)
    ensures
        line@ == shown(task@),
{
    proof {
        reveal_strlit("\t");
    }
    let mut line = task.status.sign().to_owned();
    line.append("\t");
    line.append(render_number(task.id).as_str());
    line.append("\t");
    line.append(task.content.as_str());
    assert(line@ =~= shown(task@));
    line
}

/// Adds a task whose content is the command's words, joined by spaces.
///
/// The task gets the id after that of the last task, or 0 in an empty
/// record set, and the status `TODO`, and stands last in the record set.
/// With fewer than three arguments, or when the last task holds the
/// largest id, nothing is added; on every other input the task is added.
pub fn add(args: &Vec<String>, db: &mut Database) -> (r: Result<Added, TaskError>)
    ensures
        add_fault(args.deep_view(), old(db)@) matches Some(e) ==> r == Err::<Added, TaskError>(e),
        add_fault(args.deep_view(), old(db)@) is None ==> r is Ok,
        r matches Ok(added) ==> {
            &&& added.task@ == new_task(old(db)@, joined(words_from(args.deep_view(), 2)))
            &&& final(db)@ == old(db)@.push(added.task@)
            &&& final(db).skipped == old(db).skipped
            &&& added.record@ == line_of(added.task@)
            &&& image_of(final(db)@) == image_of(old(db)@) + added.record@
            &&& stored(added.record@) == seq![added.task@]
            &&& task_in(added.record@) == Some(added.task@)
            &&& old(db).well_formed() ==> final(db).well_formed()
            &&& ids_ascend(old(db)@) ==> ids_ascend(final(db)@)
        },
        r is Err ==> *final(db) == *old(db),
{
    proof {
        if add_fault(args.deep_view(), db@) is None && ids_ascend(db@) {
            lemma_new_task_ascends(db@, joined(words_from(args.deep_view(), 2)));
        }
    }
    if args.len() < 3 {
        return Err(TaskError::Usage);
    }
    let id = match next_id_for(&db.tasks) {
        Some(id) => id,
        None => {
            return Err(TaskError::IdsExhausted);
        },
    };
    let task = Task { id, content: join_from(args, 2), status: Status::TODO };
    let copy = task.clone();
    match db.add_task(task) {
        Ok(record) => Ok(Added { task: copy, record }),
        Err(e) => Err(e),
    }
}

/// The tasks to show: those that are not deleted, in the order of the
/// record set.
pub fn list(db: &Database) -> (tasks: Vec<Task>)
    ensures
        tasks.deep_view() == visible(db@),
{
    listed(&db.tasks)
}

/// Lists the tasks that are not deleted, one line for each, in the order
/// of the record set; or says that there is none.
pub fn ls(db: &Database) -> (r: Listing)
    ensures
        match r {
            Listing::Empty => visible(db@).len() == 0,
            Listing::Lines(lines) => {
                &&& lines.len() > 0
                &&& lines.deep_view() == visible(db@).map_values(|task: TaskView| shown(task))
            },
        },
{
    let tasks = list(db);
    if tasks.len() == 0 {
        return Listing::Empty;
    }
    let ghost wanted = visible(db@).map_values(|task: TaskView| shown(task));
    let mut lines: Vec<String> = Vec::new();
    let mut i: usize = 0;
    while i < tasks.len()
        invariant
            i <= tasks.len(),
            tasks.deep_view() == visible(db@),
            wanted == visible(db@).map_values(|task: TaskView| shown(task)),
            lines.deep_view() == wanted.take(i as int),
        decreases tasks.len() - i,
    {
        let ghost before = lines.deep_view();
        let line = show(&tasks[i]);
        assert(tasks.deep_view()[i as int] == tasks[i as int]@);
        lines.push(line);
        assert(lines.deep_view() =~= before.push(line@));
        assert(lines.deep_view() =~= wanted.take(i + 1));
        i = i + 1;
    }
    assert(wanted.take(i as int) =~= wanted);
    Listing::Lines(lines)
}

/// Marks the tasks whose ids the command's words give as deleted, and
/// returns the text that has to take the place of the backing file's.
///
/// Nothing changes unless every word is a number and the id of a stored
/// task: the first word that is not gives the error. Where every word is,
/// the tasks are marked. They stay where they are; of those asked for
/// the status changes, and nothing else.
pub fn rm(args: &Vec<String>, db: &mut Database) -> (r: Result<Vec<u8>, TaskError>)
    ensures
        rm_fault(args.deep_view(), old(db)@) matches Some(e) ==> r == Err::<Vec<u8>, TaskError>(e),
        rm_fault(args.deep_view(), old(db)@) is None ==> r is Ok,
        r matches Ok(image) ==> {
            &&& final(db)@ == removed(old(db)@, rm_ids(args.deep_view(), old(db)@))
            &&& final(db).skipped == 0
            &&& image@ == image_of(final(db)@)
            &&& final(db).well_formed() ==> stored(image@) == final(db)@
            &&& old(db).well_formed() ==> final(db).well_formed()
            &&& ids_ascend(old(db)@) ==> ids_ascend(final(db)@)
        },
        r is Err ==> *final(db) == *old(db),
{
    proof {
        lemma_removed_keeps_order(db@, rm_ids(args.deep_view(), db@));
    }
    if args.len() < 3 {
        return Err(TaskError::Usage);
    }
    let ids = match requested_ids(args, 2, &db.tasks) {
        Ok(ids) => ids,
        Err(e) => {
            return Err(e);
        },
    };
    let next = strike(&db.tasks, &ids);
    db.rewrite_all(next)
}

} // verus!
