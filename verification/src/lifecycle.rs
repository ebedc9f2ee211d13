//! What happens to the tasks of a record set: how a new task gets its id,
//! how tasks are marked deleted, and which tasks a listing shows.

use vstd::prelude::*;
use crate::decimal::{number_of, parse_number};
use crate::error::TaskError;
use crate::task::{all_valid, Status, StatusView, Task, TaskView};

verus! {

/// The id that the next task gets: one more than the id of the last task,
/// and zero in an empty record set.
pub open spec fn next_id(tasks: Seq<TaskView>) -> int {
    if tasks.len() == 0 {
        0
    } else {
        tasks.last().id + 1
    }
}

/// The task that is made for `content` in the given record set.
pub open spec fn new_task(tasks: Seq<TaskView>, content: Seq<char>) -> TaskView {
    TaskView { id: next_id(tasks) as u32, content, status: StatusView::TODO }
}

/// Whether each task has a larger id than the one before it.
pub open spec fn ids_ascend(tasks: Seq<TaskView>) -> bool {
    forall|i: int, j: int| 0 <= i < j < tasks.len() ==> tasks[i].id < tasks[j].id
}

/// Whether no two tasks share an id.
pub open spec fn ids_differ(tasks: Seq<TaskView>) -> bool {
    forall|i: int, j: int| 0 <= i < j < tasks.len() ==> tasks[i].id != tasks[j].id
}

/// Whether a task of the record set has the given id.
pub open spec fn has_id(tasks: Seq<TaskView>, id: u32) -> bool {
    exists|i: int| 0 <= i < tasks.len() && #[trigger] tasks[i].id == id
}

/// The words from place `from` on: none where there are no more than
/// `from` words.
pub open spec fn words_from(words: Seq<Seq<char>>, from: int) -> Seq<Seq<char>> {
    if 0 <= from <= words.len() {
        words.skip(from)
    } else {
        Seq::empty()
    }
}

/// The words as one text, with one space between neighbours.
pub open spec fn joined(words: Seq<Seq<char>>) -> Seq<char>
    decreases words.len(),
{
    if words.len() == 0 {
        Seq::empty()
    } else if words.len() == 1 {
        words.last()
    } else {
        joined(words.drop_last()) + seq![' '] + words.last()
    }
}

/// The ids that the words ask for, in the order of the words, or the
/// fault of the first word that has one: it is no number, or it is the
/// id of no task.
pub open spec fn requested(words: Seq<Seq<char>>, tasks: Seq<TaskView>) -> Result<
    Seq<u32>,
    TaskError,
>
    decreases words.len(),
{
    if words.len() == 0 {
        Ok(Seq::empty())
    } else {
        match requested(words.drop_last(), tasks) {
            Err(e) => Err(e),
            Ok(ids) => match number_of(words.last()) {
                None => Err(TaskError::InvalidId((words.len() - 1) as usize)),
                Some(id) => if has_id(tasks, id) {
                    Ok(ids.push(id))
                } else {
                    Err(TaskError::NoSuchTask(id))
                },
            },
        }
    }
}

/// A task after the tasks with the given ids were deleted: marked
/// `DELETED` if its id is among them, else as it was.
pub open spec fn struck(task: TaskView, ids: Seq<u32>) -> TaskView {
    if ids.contains(task.id) {
        TaskView { id: task.id, content: task.content, status: StatusView::DELETED }
    } else {
        task
    }
}

/// The record set after the tasks with the given ids were deleted.
pub open spec fn removed(tasks: Seq<TaskView>, ids: Seq<u32>) -> Seq<TaskView> {
    Seq::new(tasks.len(), |i: int| struck(tasks[i], ids))
}

/// Whether a listing shows the task: it does unless the task is deleted.
pub open spec fn is_listed(task: TaskView) -> bool {
    task.status != StatusView::DELETED
}

/// The tasks that a listing shows, in the order of the record set.
pub open spec fn visible(tasks: Seq<TaskView>) -> Seq<TaskView> {
    tasks.filter(|task: TaskView| is_listed(task))
}

/// The record set that holds a task for each of the contents, added one
/// after another to an empty record set.
pub open spec fn after_adding(contents: Seq<Seq<char>>) -> Seq<TaskView>
    decreases contents.len(),
{
    if contents.len() == 0 {
        Seq::empty()
    } else {
        let before = after_adding(contents.drop_last());
        before.push(new_task(before, contents.last()))
    }
}

/// Tasks that are added one after another to an empty record set get the
/// ids 0, 1, 2 and so on, in the order in which they were added, as long
/// as there are ids left.
pub proof fn lemma_ids_count_up(contents: Seq<Seq<char>>)
    requires
        contents.len() <= u32::MAX + 1,
    ensures
        after_adding(contents).len() == contents.len(),
        forall|i: int|
            0 <= i < contents.len() ==> #[trigger] after_adding(contents)[i] == (TaskView {
                id: i as u32,
                content: contents[i],
                status: StatusView::TODO,
            }),
    decreases contents.len(),
{
    if contents.len() > 0 {
        lemma_ids_count_up(contents.drop_last());
    }
}

/// A new task keeps the ids ascending, and so apart: where each task has
/// a larger id than the one before it, the new task's id is larger than
/// all of them.
pub proof fn lemma_new_task_ascends(tasks: Seq<TaskView>, content: Seq<char>)
    requires
        ids_ascend(tasks),
        next_id(tasks) <= u32::MAX,
    ensures
        ids_ascend(tasks.push(new_task(tasks, content))),
        !has_id(tasks, new_task(tasks, content).id),
{
}

/// Ascending ids differ.
pub proof fn lemma_ascending_ids_differ(tasks: Seq<TaskView>)
    requires
        ids_ascend(tasks),
    ensures
        ids_differ(tasks),
{
}

/// Deleting keeps tasks that are what they say so, and ascending ids
/// ascending.
pub proof fn lemma_removed_keeps_order(tasks: Seq<TaskView>, ids: Seq<u32>)
    ensures
        all_valid(tasks) ==> all_valid(removed(tasks, ids)),
        ids_ascend(tasks) ==> ids_ascend(removed(tasks, ids)),
{
    if all_valid(tasks) {
        assert forall|i: int| 0 <= i < tasks.len() implies (#[trigger] removed(
            tasks,
            ids,
        )[i]).valid() by {
            assert(tasks[i].valid());
        }
    }
}

/// Deleting changes neither the number of tasks nor their order, ids or
/// contents. It changes the status of the tasks whose ids are given, to
/// `DELETED`, and of no other.
pub proof fn lemma_removed_keeps_records(tasks: Seq<TaskView>, ids: Seq<u32>)
    ensures
        removed(tasks, ids).len() == tasks.len(),
        forall|i: int|
            0 <= i < tasks.len() ==> {
                let before = tasks[i];
                let after = #[trigger] removed(tasks, ids)[i];
                &&& after.id == before.id
                &&& after.content == before.content
                &&& after.status == if ids.contains(before.id) {
                    StatusView::DELETED
                } else {
                    before.status
                }
            },
{
}

/// A listing shows no deleted task, and every task that is not deleted.
pub proof fn lemma_visible_tasks(tasks: Seq<TaskView>)
    ensures
        forall|i: int|
            0 <= i < visible(tasks).len() ==> (#[trigger] visible(tasks)[i]).status
                != StatusView::DELETED,
        forall|i: int|
            0 <= i < visible(tasks).len() ==> tasks.contains(#[trigger] visible(tasks)[i]),
        forall|i: int|
            0 <= i < tasks.len() && tasks[i].status != StatusView::DELETED ==> visible(
                tasks,
            ).contains(#[trigger] tasks[i]),
{
    broadcast use vstd::seq_lib::group_filter_ensures;

    let shown = |task: TaskView| is_listed(task);
    assert forall|i: int| 0 <= i < visible(tasks).len() implies tasks.contains(
        #[trigger] visible(tasks)[i],
    ) by {
        tasks.lemma_filter_contains_rev(shown, visible(tasks)[i]);
    }
    assert forall|i: int| 0 <= i < visible(tasks).len() implies (#[trigger] visible(
        tasks,
    )[i]).status != StatusView::DELETED by {
        tasks.lemma_filter_pred(shown, i);
    }
    assert forall|i: int|
        0 <= i < tasks.len() && tasks[i].status != StatusView::DELETED implies visible(
        tasks,
    ).contains(#[trigger] tasks[i]) by {
        tasks.lemma_filter_contains(shown, i);
    }
}

/// The first fault among the words stays the fault when more words
/// follow.
proof fn lemma_fault_stays(words: Seq<Seq<char>>, tasks: Seq<TaskView>, k: int)
    requires
        0 <= k <= words.len(),
        requested(words.take(k), tasks) is Err,
    ensures
        requested(words, tasks) == requested(words.take(k), tasks),
    decreases words.len(),
{
    if k == words.len() {
        assert(words.take(k) =~= words);
    } else {
        assert(words.drop_last().take(k) =~= words.take(k));
        lemma_fault_stays(words.drop_last(), tasks, k);
    }
}

/// The id for the next task, or `None` where the last task holds the
/// largest id there is.
pub fn next_id_for(tasks: &Vec<Task>) -> (r: Option<u32>)
    ensures
        match r {
            Some(id) => id == next_id(tasks.deep_view()),
            None => next_id(tasks.deep_view()) > u32::MAX,
        },
{
    if tasks.len() == 0 {
        Some(0)
    } else {
        assert(tasks.deep_view().last() == tasks[tasks.len() - 1]@);
        tasks[tasks.len() - 1].id.checked_add(1)
    }
}

/// Joins the words from place `from` on, with one space between
/// neighbours.
pub fn join_from(words: &Vec<String>, from: usize) -> (text: String)
    ensures
        text@ == joined(words_from(words.deep_view(), from as int)),
{
    let mut text = String::new();
    if from >= words.len() {
        assert(words_from(words.deep_view(), from as int) =~= Seq::empty());
        return text;
    }
    let ghost rest = words_from(words.deep_view(), from as int);
    let mut i: usize = from;
    proof {
        reveal_strlit(" ");
    }
    assert(rest.take(0) =~= Seq::empty());
    while i < words.len()
        invariant
            from <= i <= words.len(),
            " "@ == seq![' '],
            rest == words.deep_view().skip(from as int),
            text@ == joined(rest.take(i - from)),
        decreases words.len() - i,
    {
        let ghost upto = rest.take(i - from + 1);
        assert(upto.drop_last() =~= rest.take(i - from));
        assert(upto.last() == words[i as int]@);
        if i > from {
            text.append(" ");
        }
        text.append(words[i].as_str());
        assert(text@ =~= joined(upto));
        i = i + 1;
    }
    assert(rest.take(i - from) =~= rest);
    text
}

/// Whether a task has the given id.
pub fn contains_id(tasks: &Vec<Task>, id: u32) -> (r: bool)
    ensures
        r == has_id(tasks.deep_view(), id),
{
    let mut i: usize = 0;
    while i < tasks.len()
        invariant
            i <= tasks.len(),
            forall|j: int| 0 <= j < i ==> tasks.deep_view()[j].id != id,
        decreases tasks.len() - i,
    {
        if tasks[i].id == id {
            assert(tasks.deep_view()[i as int].id == id);
            return true;
        }
        i = i + 1;
    }
    false
}

/// Reads the ids that the words from place `from` on ask for, and holds
/// each against the record set. The first word that is no number, or
/// that is the id of no task, ends the reading with its fault.
pub fn requested_ids(words: &Vec<String>, from: usize, tasks: &Vec<Task>) -> (r: Result<
    Vec<u32>,
    TaskError,
>)
    ensures
        match r {
            Ok(ids) => requested(words_from(words.deep_view(), from as int), tasks.deep_view())
                == Ok::<Seq<u32>, TaskError>(ids@),
            Err(e) => requested(words_from(words.deep_view(), from as int), tasks.deep_view())
                == Err::<Seq<u32>, TaskError>(e),
        },
{
    let ghost asked = words_from(words.deep_view(), from as int);
    let ghost held = tasks.deep_view();
    let mut ids: Vec<u32> = Vec::new();
    if from > words.len() {
        return Ok(ids);
    }
    let mut i: usize = from;
    assert(asked.take(0) =~= Seq::empty());
    while i < words.len()
        invariant
            from <= i <= words.len(),
            asked == words.deep_view().skip(from as int),
            held == tasks.deep_view(),
            requested(asked.take(i - from), held) == Ok::<Seq<u32>, TaskError>(ids@),
        decreases words.len() - i,
    {
        let ghost upto = asked.take(i - from + 1);
        assert(upto.drop_last() =~= asked.take(i - from));
        assert(upto.last() == words[i as int]@);
        match parse_number(words[i].as_str()) {
            None => {
                proof {
                    lemma_fault_stays(asked, held, i - from + 1);
                }
                return Err(TaskError::InvalidId(i - from));
            },
            Some(id) => {
                if !contains_id(tasks, id) {
                    proof {
                        lemma_fault_stays(asked, held, i - from + 1);
                    }
                    return Err(TaskError::NoSuchTask(id));
                }
                ids.push(id);
            },
        }
        i = i + 1;
    }
    assert(asked.take(i - from) =~= asked);
    Ok(ids)
}

/// Whether `id` is among `ids`.
pub fn is_among(ids: &Vec<u32>, id: u32) -> (r: bool)
    ensures
        r == ids@.contains(id),
{
    let mut i: usize = 0;
    while i < ids.len()
        invariant
            i <= ids.len(),
            forall|j: int| 0 <= j < i ==> ids@[j] != id,
        decreases ids.len() - i,
    {
        if ids[i] == id {
            return true;
        }
        i = i + 1;
    }
    false
}

/// Marks the tasks with the given ids as deleted, and leaves the others
/// as they are.
pub fn strike(tasks: &Vec<Task>, ids: &Vec<u32>) -> (out: Vec<Task>)
    ensures
        out.deep_view() == removed(tasks.deep_view(), ids@),
{
    let mut out: Vec<Task> = Vec::new();
    let mut i: usize = 0;
    while i < tasks.len()
        invariant
            i <= tasks.len(),
            out.deep_view() == removed(tasks.deep_view(), ids@).take(i as int),
        decreases tasks.len() - i,
    {
        let ghost before = out.deep_view();
        let mut task = tasks[i].clone();
        if is_among(ids, task.id) {
            task.status = Status::DELETED;
        }
        let ghost after = task@;
        out.push(task);
        assert(out.deep_view() =~= before.push(after));
        assert(out.deep_view() =~= removed(tasks.deep_view(), ids@).take(i + 1));
        i = i + 1;
    }
    assert(removed(tasks.deep_view(), ids@).take(i as int) =~= removed(tasks.deep_view(), ids@));
    out
}

/// The tasks that a listing shows: those that are not deleted, in the
/// order of the record set.
pub fn listed(tasks: &Vec<Task>) -> (out: Vec<Task>)
    ensures
        out.deep_view() == visible(tasks.deep_view()),
{
    let mut out: Vec<Task> = Vec::new();
    let mut i: usize = 0;
    assert(tasks.deep_view().take(0) =~= Seq::empty());
    proof {
        reveal(Seq::filter);
    }
    while i < tasks.len()
        invariant
            i <= tasks.len(),
            out.deep_view() == visible(tasks.deep_view().take(i as int)),
        decreases tasks.len() - i,
    {
        let ghost before = out.deep_view();
        let ghost upto = tasks.deep_view().take(i + 1);
        assert(upto.drop_last() =~= tasks.deep_view().take(i as int));
        assert(upto.last() == tasks[i as int]@);
        proof {
            reveal(Seq::filter);
        }
        if !tasks[i].status.is_deleted() {
            let task = tasks[i].clone();
            out.push(task);
            assert(out.deep_view() =~= before.push(task@));
        }
        i = i + 1;
    }
    assert(tasks.deep_view().take(i as int) =~= tasks.deep_view());
    out
}

} // verus!
