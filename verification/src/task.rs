//! Tasks and the states they pass through.

use vstd::prelude::*;
use crate::text::same_text;

verus! {

/// Where a task stands. A task starts as `TODO`; `DELETED` is final.
/// `ELSE` holds the name of a state that this library does not know, as
/// it was found, so that the name is still there when the task is stored
/// again.
#[allow(non_camel_case_types)]
#[derive(Debug, PartialEq, Eq)]
pub enum Status {
    TODO,
    IN_PROGRESS,
    DONE,
    ELSE(String),
    DELETED,
}

/// A status as a value of mathematics.
#[allow(non_camel_case_types)]
pub enum StatusView {
    TODO,
    IN_PROGRESS,
    DONE,
    ELSE(Seq<char>),
    DELETED,
}

/// Whether `name` is the stored name of one of the four states that this
/// library knows.
pub open spec fn is_known_name(name: Seq<char>) -> bool {
    name == "TODO"@ || name == "IN_PROGRESS"@ || name == "DONE"@ || name == "DELETED"@
}

impl StatusView {
    /// The name under which the state is stored.
    pub open spec fn token(self) -> Seq<char> {
        match self {
            StatusView::TODO => "TODO"@,
            StatusView::IN_PROGRESS => "IN_PROGRESS"@,
            StatusView::DONE => "DONE"@,
            StatusView::ELSE(name) => name,
            StatusView::DELETED => "DELETED"@,
        }
    }

    /// The state that a stored name stands for: a name that is not known
    /// is kept in `ELSE`.
    pub open spec fn of_token(name: Seq<char>) -> StatusView {
        if name == "TODO"@ {
            StatusView::TODO
        } else if name == "IN_PROGRESS"@ {
            StatusView::IN_PROGRESS
        } else if name == "DONE"@ {
            StatusView::DONE
        } else if name == "DELETED"@ {
            StatusView::DELETED
        } else {
            StatusView::ELSE(name)
        }
    }

    /// Whether the state is what it says: `ELSE` holds no name of a state
    /// that is known.
    pub open spec fn valid(self) -> bool {
        self matches StatusView::ELSE(name) ==> !is_known_name(name)
    }

    /// What a listing shows in front of a task in this state: a sign for
    /// the three states of work, else the state's name.
    pub open spec fn marker(self) -> Seq<char> {
        match self {
            StatusView::TODO => "[]"@,
            StatusView::IN_PROGRESS => "[*]"@,
            StatusView::DONE => "[Y]"@,
            _ => self.token(),
        }
    }

    /// A stored name is read back as the state that wrote it.
    pub proof fn lemma_token_round_trip(self)
        requires
            self.valid(),
        ensures
            StatusView::of_token(self.token()) == self,
    {
        reveal_strlit("TODO");
        reveal_strlit("IN_PROGRESS");
        reveal_strlit("DONE");
        reveal_strlit("DELETED");
        assert("TODO"@.len() == 4 && "TODO"@[0] == 'T');
        assert("DONE"@.len() == 4 && "DONE"@[0] == 'D');
        assert("IN_PROGRESS"@.len() == 11);
        assert("DELETED"@.len() == 7);
    }

    /// Every name is read as a state that is what it says, and that is
    /// stored under that name again.
    pub proof fn lemma_of_token_valid(name: Seq<char>)
        ensures
            StatusView::of_token(name).valid(),
            StatusView::of_token(name).token() == name,
    {
    }
}

impl View for Status {
    type V = StatusView;

    open spec fn view(&self) -> StatusView {
        match self {
            Status::TODO => StatusView::TODO,
            Status::IN_PROGRESS => StatusView::IN_PROGRESS,
            Status::DONE => StatusView::DONE,
            Status::ELSE(name) => StatusView::ELSE(name@),
            Status::DELETED => StatusView::DELETED,
        }
    }
}

impl Clone for Status {
    fn clone(&self) -> (r: Status)
        ensures
            r@ == self@,
    {
        match self {
            Status::TODO => Status::TODO,
            Status::IN_PROGRESS => Status::IN_PROGRESS,
            Status::DONE => Status::DONE,
            Status::ELSE(name) => Status::ELSE(name.clone()),
            Status::DELETED => Status::DELETED,
        }
    }
}

impl Status {
    /// The state's name as it is stored.
    pub fn name(&self) -> (r: &str)
        ensures
            r@ == self@.token(),
    {
        match self {
            Status::TODO => "TODO",
            Status::IN_PROGRESS => "IN_PROGRESS",
            Status::DONE => "DONE",
            Status::ELSE(name) => name.as_str(),
            Status::DELETED => "DELETED",
        }
    }

    /// The state's name as an owned text.
    pub fn to_string(&self) -> (r: String)
        ensures
            r@ == self@.token(),
    {
        self.name().to_owned()
    }

    /// Reads a stored name. Every text is accepted: one that names no
    /// known state is kept in `ELSE`.
    pub fn from_token(name: &str) -> (r: Status)
        ensures
            r@ == StatusView::of_token(name@),
            r@.valid(),
    {
        if same_text(name, "TODO") {
            Status::TODO
        } else if same_text(name, "IN_PROGRESS") {
            Status::IN_PROGRESS
        } else if same_text(name, "DONE") {
            Status::DONE
        } else if same_text(name, "DELETED") {
            Status::DELETED
        } else {
            Status::ELSE(name.to_owned())
        }
    }

    /// The sign that a listing shows for the state.
    pub fn sign(&self) -> (r: &str)
        ensures
            r@ == self@.marker(),
    {
        match self {
            Status::TODO => "[]",
            Status::IN_PROGRESS => "[*]",
            Status::DONE => "[Y]",
            _ => self.name(),
        }
    }

    /// Whether the state is `DELETED`.
    pub fn is_deleted(&self) -> (r: bool)
        ensures
            r == (self@ == StatusView::DELETED),
    {
        match self {
            Status::DELETED => true,
            _ => false,
        }
    }
}

/// One task of the record set.
#[derive(Debug, PartialEq, Eq)]
pub struct Task {
    /// The number by which the task is found. No two tasks of a record
    /// set that this library filled share one.
    pub id: u32,
    /// What is to be done, in any words.
    pub content: String,
    pub status: Status,
}

/// A task as a value of mathematics.
pub struct TaskView {
    pub id: u32,
    pub content: Seq<char>,
    pub status: StatusView,
}

impl TaskView {
    /// Whether the task is what it says: its status is.
    pub open spec fn valid(self) -> bool {
        self.status.valid()
    }
}

/// Whether every one of the tasks is what it says.
pub open spec fn all_valid(tasks: Seq<TaskView>) -> bool {
    forall|i: int| 0 <= i < tasks.len() ==> (#[trigger] tasks[i]).valid()
}

impl View for Task {
    type V = TaskView;

    open spec fn view(&self) -> TaskView {
        TaskView { id: self.id, content: self.content@, status: self.status@ }
    }
}

impl DeepView for Task {
    type V = TaskView;

    open spec fn deep_view(&self) -> TaskView {
        self@
    }
}

impl Clone for Task {
    fn clone(&self) -> (r: Task)
        ensures
            r@ == self@,
    {
        Task { id: self.id, content: self.content.clone(), status: self.status.clone() }
    }
}

} // verus!
