//! The record format: one task, one line.
//!
//! A task is stored as three fields: its id in decimal digits, its content
//! as it is, and the name of its status. `csv` turns the fields into a line
//! and a line into fields (see `record`); what the fields mean is decided
//! here.

use vstd::prelude::*;
use crate::decimal::{decimal, lemma_decimal_value, lemma_number_round_trip, number_of, parse_number, render_number};
use crate::error::TaskError;
use crate::record::{
    as_read, csv_line, csv_records, csv_text, read_records, reads_back, same_width, write_records,
};
use crate::task::{all_valid, Status, StatusView, Task, TaskView};

verus! {

/// The three fields that stand for a task.
pub open spec fn fields_of(task: TaskView) -> Seq<Seq<char>> {
    seq![decimal(task.id as nat), task.content, task.status.token()]
}

/// The task that a row of fields stands for. There is none unless the
/// fields are three and the first is a number. Any content is accepted,
/// and any status name: one that is not known gives `ELSE`.
pub open spec fn task_of(fields: Seq<Seq<char>>) -> Option<TaskView> {
    if fields.len() == 3 {
        match number_of(fields[0]) {
            Some(id) => Some(
                TaskView { id, content: fields[1], status: StatusView::of_token(fields[2]) },
            ),
            None => None,
        }
    } else {
        None
    }
}

/// The task that a row of the reader stands for, if it is a row at all.
pub open spec fn task_of_row(row: Option<Seq<Seq<char>>>) -> Option<TaskView> {
    match row {
        Some(fields) => task_of(fields),
        None => None,
    }
}

/// The line that stands for a task.
pub open spec fn line_of(task: TaskView) -> Seq<u8> {
    csv_line(fields_of(task))
}

/// The task that the first record of `data` stands for. There is none
/// where `data` holds no record, or where its first record stands for no
/// task.
pub open spec fn task_in(data: Seq<u8>) -> Option<TaskView> {
    if csv_records(data).len() > 0 {
        task_of_row(csv_records(data)[0])
    } else {
        None
    }
}

/// The tasks that rows stand for, in the order of the rows. A row that
/// stands for no task is passed over.
pub open spec fn tasks_of(rows: Seq<Option<Seq<Seq<char>>>>) -> Seq<TaskView>
    decreases rows.len(),
{
    if rows.len() == 0 {
        Seq::empty()
    } else {
        match task_of_row(rows.last()) {
            Some(task) => tasks_of(rows.drop_last()).push(task),
            None => tasks_of(rows.drop_last()),
        }
    }
}

/// The tasks that are stored in `data`.
pub open spec fn stored(data: Seq<u8>) -> Seq<TaskView> {
    tasks_of(csv_records(data))
}

/// The rows that stand for the given tasks.
pub open spec fn rows_of(tasks: Seq<TaskView>) -> Seq<Seq<Seq<char>>> {
    tasks.map_values(|task: TaskView| fields_of(task))
}

/// The text that holds the given tasks: their lines, one after another.
pub open spec fn image_of(tasks: Seq<TaskView>) -> Seq<u8> {
    csv_text(rows_of(tasks))
}

/// The fields of a task stand for that task and no other.
pub proof fn lemma_fields_round_trip(task: TaskView)
    requires
        task.valid(),
    ensures
        task_of(fields_of(task)) == Some(task),
{
    lemma_number_round_trip(task.id);
    lemma_decimal_value(task.id as nat);
    task.status.lemma_token_round_trip();
}

/// The rows of tasks are of one width, and such as are read as written:
/// each has three fields, and the first begins with a digit.
pub proof fn lemma_rows_read_back(tasks: Seq<TaskView>)
    ensures
        same_width(rows_of(tasks)),
        reads_back(rows_of(tasks)),
{
    if tasks.len() > 0 {
        lemma_decimal_value(tasks[0].id as nat);
        assert(crate::decimal::is_digit(decimal(tasks[0].id as nat)[0]));
    }
}

/// The rows of tasks that are what they say stand for those tasks.
pub proof fn lemma_rows_round_trip(tasks: Seq<TaskView>)
    requires
        all_valid(tasks),
    ensures
        tasks_of(as_read(rows_of(tasks))) == tasks,
    decreases tasks.len(),
{
    let rows = as_read(rows_of(tasks));
    if tasks.len() == 0 {
        assert(tasks_of(rows) =~= tasks);
    } else {
        let front = tasks.drop_last();
        assert(all_valid(front)) by {
            assert forall|i: int| 0 <= i < front.len() implies (#[trigger] front[i]).valid() by {
                assert(tasks[i].valid());
            }
        }
        lemma_rows_round_trip(front);
        assert(rows.drop_last() =~= as_read(rows_of(front)));
        assert(rows.last() == Some(fields_of(tasks.last())));
        assert(tasks.last().valid());
        lemma_fields_round_trip(tasks.last());
        assert(tasks_of(rows) =~= tasks);
    }
}

/// The text of one task is its line.
pub proof fn lemma_image_of_one(task: TaskView)
    ensures
        image_of(seq![task]) == line_of(task),
{
    let rows = rows_of(seq![task]);
    assert(rows.drop_last() =~= Seq::<Seq<Seq<char>>>::empty());
    assert(csv_text(rows.drop_last()) =~= Seq::<u8>::empty());
    assert(rows.last() == fields_of(task));
    assert(csv_text(rows) =~= csv_line(fields_of(task)));
}

/// The text that holds one task more is the text with that task's line
/// at its end.
pub proof fn lemma_image_of_push(tasks: Seq<TaskView>, task: TaskView)
    ensures
        image_of(tasks.push(task)) == image_of(tasks) + line_of(task),
{
    let rows = rows_of(tasks.push(task));
    assert(rows.drop_last() =~= rows_of(tasks));
    assert(rows.last() == fields_of(task));
}

/// A row that stands for a task stands for one that is what it says.
pub proof fn lemma_task_of_valid(fields: Seq<Seq<char>>)
    ensures
        task_of(fields) matches Some(task) ==> task.valid(),
{
    if fields.len() == 3 {
        StatusView::lemma_of_token_valid(fields[2]);
    }
}

/// The tasks that rows stand for are what they say.
pub proof fn lemma_tasks_of_valid(rows: Seq<Option<Seq<Seq<char>>>>)
    ensures
        all_valid(tasks_of(rows)),
    decreases rows.len(),
{
    if rows.len() > 0 {
        lemma_tasks_of_valid(rows.drop_last());
        if let Some(fields) = rows.last() {
            lemma_task_of_valid(fields);
        }
    }
}

/// No more tasks come out of rows than there are rows.
pub proof fn lemma_tasks_of_len(rows: Seq<Option<Seq<Seq<char>>>>)
    ensures
        tasks_of(rows).len() <= rows.len(),
    decreases rows.len(),
{
    if rows.len() > 0 {
        lemma_tasks_of_len(rows.drop_last());
    }
}

/// Writes a task as its three fields.
pub fn task_fields(task: &Task) -> (fields: Vec<String>)
    ensures
        fields.deep_view() == fields_of(task@),
{
    let mut fields: Vec<String> = Vec::new();
    fields.push(render_number(task.id));
    fields.push(task.content.clone());
    fields.push(task.status.to_string());
    assert(fields.deep_view() =~= fields_of(task@));
    fields
}

/// Reads a task from a row of fields: `Some` exactly where `task_of` has
/// a task for them.
pub fn task_from_fields(fields: &Vec<String>) -> (r: Option<Task>)
    ensures
        r.deep_view() == task_of(fields.deep_view()),
        r matches Some(task) ==> task@.valid(),
{
    if fields.len() != 3 {
        return None;
    }
    match parse_number(fields[0].as_str()) {
        Some(id) => Some(
            Task {
                id,
                content: fields[1].clone(),
                status: Status::from_token(fields[2].as_str()),
            },
        ),
        None => None,
    }
}

/// Reads the tasks out of the rows that the reader gave, in their order.
/// A row that stands for no task is passed over.
pub fn tasks_from_rows(rows: &Vec<Option<Vec<String>>>) -> (tasks: Vec<Task>)
    ensures
        tasks.deep_view() == tasks_of(rows.deep_view()),
        all_valid(tasks.deep_view()),
{
    proof {
        lemma_tasks_of_valid(rows.deep_view());
    }
    let mut tasks: Vec<Task> = Vec::new();
    let mut i: usize = 0;
    assert(rows.deep_view().take(0) =~= Seq::empty());
    while i < rows.len()
        invariant
            i <= rows.len(),
            tasks.deep_view() == tasks_of(rows.deep_view().take(i as int)),
        decreases rows.len() - i,
    {
        let ghost before = tasks.deep_view();
        let ghost upto = rows.deep_view().take(i + 1);
        assert(upto.drop_last() =~= rows.deep_view().take(i as int));
        assert(upto.last() == rows[i as int].deep_view());
        let found = match &rows[i] {
            Some(fields) => task_from_fields(fields),
            None => None,
        };
        assert(found.deep_view() == task_of_row(upto.last()));
        match found {
            Some(task) => {
                tasks.push(task);
                assert(tasks.deep_view() =~= before.push(task@));
            },
            None => {},
        }
        i = i + 1;
    }
    assert(rows.deep_view().take(i as int) =~= rows.deep_view());
    tasks
}

/// The rows of the given tasks.
pub fn task_rows(tasks: &Vec<Task>) -> (rows: Vec<Vec<String>>)
    ensures
        rows.deep_view() == rows_of(tasks.deep_view()),
{
    let mut rows: Vec<Vec<String>> = Vec::new();
    let mut i: usize = 0;
    while i < tasks.len()
        invariant
            i <= tasks.len(),
            rows.deep_view() == rows_of(tasks.deep_view()).take(i as int),
        decreases tasks.len() - i,
    {
        let ghost before = rows.deep_view();
        let fields = task_fields(&tasks[i]);
        let ghost row = fields.deep_view();
        rows.push(fields);
        assert(rows.deep_view() =~= before.push(row));
        assert(rows.deep_view() =~= rows_of(tasks.deep_view()).take(i + 1));
        i = i + 1;
    }
    assert(rows_of(tasks.deep_view()).take(i as int) =~= rows_of(tasks.deep_view()));
    rows
}

/// Writes the given tasks, one line after another.
///
/// The text always comes back. Read again, it holds the tasks that were
/// written and no other, if they are what they say.
pub fn encode_all(tasks: &Vec<Task>) -> (r: Result<Vec<u8>, TaskError>)
    ensures
        r matches Ok(image) && {
            &&& image@ == image_of(tasks.deep_view())
            &&& all_valid(tasks.deep_view()) ==> stored(image@) == tasks.deep_view()
        },
{
    let rows = task_rows(tasks);
    proof {
        lemma_rows_read_back(tasks.deep_view());
        if all_valid(tasks.deep_view()) {
            lemma_rows_round_trip(tasks.deep_view());
        }
    }
    match write_records(&rows) {
        Ok(image) => Ok(image),
        Err(_) => Err(TaskError::Encode),
    }
}

/// Writes a task as one line, the line's end included.
///
/// The line always comes back. It holds one record, which `decode` reads
/// as the task that was written, if the task is what it says.
pub fn encode(task: &Task) -> (r: Result<Vec<u8>, TaskError>)
    ensures
        r matches Ok(line) && {
            &&& line@ == line_of(task@)
            &&& task@.valid() ==> stored(line@) == seq![task@]
            &&& task@.valid() ==> task_in(line@) == Some(task@)
        },
{
    let ghost one = seq![task@];
    let mut rows: Vec<Vec<String>> = Vec::new();
    rows.push(task_fields(task));
    proof {
        assert(rows.deep_view() =~= rows_of(one));
        lemma_rows_read_back(one);
        lemma_image_of_one(task@);
        if task@.valid() {
            lemma_rows_round_trip(one);
            lemma_fields_round_trip(task@);
            assert(as_read(rows_of(one))[0] == Some(fields_of(task@)));
        }
    }
    match write_records(&rows) {
        Ok(line) => Ok(line),
        Err(_) => Err(TaskError::Encode),
    }
}

/// Reads the task that the first record of `line` stands for.
pub fn decode(line: &[u8]) -> (r: Option<Task>)
    ensures
        r.deep_view() == task_in(line@),
        r matches Some(task) ==> task@.valid(),
{
    let rows = read_records(line);
    if rows.len() == 0 {
        return None;
    }
    assert(rows.deep_view()[0] == rows[0].deep_view());
    match &rows[0] {
        Some(fields) => task_from_fields(fields),
        None => None,
    }
}

/// Reads every task that is stored in `data`, in the order of the
/// records. A record that stands for no task is passed over.
pub fn decode_all(data: &[u8]) -> (tasks: Vec<Task>)
    ensures
        tasks.deep_view() == stored(data@),
        all_valid(tasks.deep_view()),
{
    let rows = read_records(data);
    tasks_from_rows(&rows)
}

} // verus!
