//! The task record: a name, an optional free-form text, a lifecycle status,
//! and a creation timestamp stamped once when the record is built.

use vstd::prelude::*;

verus! {

/// One task's lifecycle state.
#[derive(Clone, Copy, Debug, PartialEq, Eq, Structural)]
pub enum Status {
    Pending,
    Doing,
    Done,
}

/// The word a status is rendered as, both on screen and on disk.
pub open spec fn status_chars(s: Status) -> Seq<char> {
    match s {
        Status::Pending => seq!['P', 'e', 'n', 'd', 'i', 'n', 'g'],
        Status::Doing => seq!['D', 'o', 'i', 'n', 'g'],
        Status::Done => seq!['D', 'o', 'n', 'e'],
    }
}

impl Status {
    /// Render the status as its word.
    pub fn to_string(&self) -> (r: String)
        ensures
            r@ == status_chars(*self),
    {
        match self {
            Status::Pending => {
                let r = "Pending".to_owned();
                proof {
                    reveal_strlit("Pending");
                    assert(r@ =~= status_chars(Status::Pending));
                }
                r
            },
            Status::Doing => {
                let r = "Doing".to_owned();
                proof {
                    reveal_strlit("Doing");
                    assert(r@ =~= status_chars(Status::Doing));
                }
                r
            },
            Status::Done => {
                let r = "Done".to_owned();
                proof {
                    reveal_strlit("Done");
                    assert(r@ =~= status_chars(Status::Done));
                }
                r
            },
        }
    }
}

/// The mathematical value of one task record.
pub struct TaskView {
    pub name: Seq<char>,
    pub text: Option<Seq<char>>,
    pub status: Status,
    pub created_at: Seq<char>,
}

/// One task record. `created_at` holds the RFC 3339 rendering of the UTC
/// wall-clock time at which the record was built; it is set once and never
/// recomputed.
#[derive(Debug)]
pub struct Task {
    pub name: String,
    pub text: Option<String>,
    pub status: Status,
    pub created_at: String,
}

/// The value of an optional text.
pub open spec fn opt_view(o: Option<String>) -> Option<Seq<char>> {
    match o {
        Some(t) => Some(t@),
        None => None,
    }
}

impl View for Task {
    type V = TaskView;

    open spec fn view(&self) -> TaskView {
        TaskView {
            name: self.name@,
            text: opt_view(self.text),
            status: self.status,
            created_at: self.created_at@,
        }
    }
}

/// The values of a whole collection, in order.
pub open spec fn seq_view(ts: Seq<Task>) -> Seq<TaskView> {
    ts.map_values(|t: Task| t@)
}

/// What a builder holds before the timestamp is stamped.
pub struct BuilderView {
    pub name: Seq<char>,
    pub text: Option<Seq<char>>,
    pub status: Status,
}

/// Collects a record's fields before construction; the omitted ones keep
/// their defaults (no text, status `Pending`).
pub struct TaskBuilder {
    name: String,
    text: Option<String>,
    status: Status,
}

impl View for TaskBuilder {
    type V = BuilderView;

    closed spec fn view(&self) -> BuilderView {
        BuilderView {
            name: self.name@,
            text: match self.text {
                Some(t) => Some(t@),
                None => None,
            },
            status: self.status,
        }
    }
}

/// Relies on chrono's `Utc::now` and `DateTime::to_rfc3339`: the current UTC
/// wall-clock time, rendered as an RFC 3339 string. The result depends on the
/// clock, so nothing is promised of it.
#[verifier::external_body]
fn now_rfc3339() -> String {
    chrono::Utc::now().to_rfc3339()
}

impl Task {
    /// Begin building a record: the name is required, the text and status
    /// start at their defaults.
    pub fn new(title: &str) -> (b: TaskBuilder)
        ensures
            b@.name == title@,
            b@.text is None,
            b@.status == Status::Pending,
    {
        TaskBuilder { name: title.to_owned(), text: None, status: Status::Pending }
    }
}

impl TaskBuilder {
    /// Override the optional text.
    pub fn text(self, text: &str) -> (b: TaskBuilder)
        ensures
            b@.name == self@.name,
            b@.text == Some(text@),
            b@.status == self@.status,
    {
        TaskBuilder { name: self.name, text: Some(text.to_owned()), status: self.status }
    }

    /// Override the status.
    pub fn status(self, status: Status) -> (b: TaskBuilder)
        ensures
            b@.name == self@.name,
            b@.text == self@.text,
            b@.status == status,
    {
        TaskBuilder { name: self.name, text: self.text, status }
    }

    /// Stamp the creation time and produce the finished record.
    pub fn build(self) -> (t: Task)
        ensures
            t@.name == self@.name,
            t@.text == self@.text,
            t@.status == self@.status,
    {
        Task { name: self.name, text: self.text, status: self.status, created_at: now_rfc3339() }
    }
}

} // verus!
