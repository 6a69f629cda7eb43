//! The task store: the collection in memory, its four operations, and the
//! text written to and read from the backing file.
//!
//! The caller owns the file itself: it reads the file's text and hands it to
//! `load`, and writes what `save` returns back to the file, rewinding and
//! truncating first so no stale bytes survive a shorter rewrite. Two runs
//! against the same file are not coordinated: the last writer wins.

use vstd::prelude::*;
use crate::cli::{status_arg_view, status_from_arg, status_opt_view, CreateTaskArgs, UpdateTaskArgs};
use crate::codec::{enc_tasks, p_top, p_ws};
use crate::decode::decode_tasks;
use crate::encode::encode_tasks;
use crate::error::Error;
use crate::task::{opt_view, seq_view, status_chars, Task, TaskView};

verus! {

/// The fixed file name used when the caller names none: a file in the
/// current working directory.
pub fn find_default_journal_file() -> (r: Option<String>)
    ensures
        r matches Some(p) && p@ == "./todo-tasks.json"@,
{
    Some("./todo-tasks.json".to_owned())
}

/// What `update_task` leaves at the addressed position: each supplied field
/// overwritten, each omitted field kept, and the creation time untouched.
pub open spec fn updated_view(t: TaskView, a: UpdateTaskArgs) -> TaskView {
    TaskView {
        name: match a.name {
            Some(n) => n@,
            None => t.name,
        },
        text: match a.text {
            Some(x) => Some(x@),
            None => t.text,
        },
        status: match a.status {
            Some(s) => status_arg_view(s),
            None => t.status,
        },
        created_at: t.created_at,
    }
}

/// One printable line of the listing.
pub struct TaskRow {
    pub id: usize,
    pub name: String,
    pub text: String,
    pub status: String,
    pub created_at: String,
}

/// Relies on chrono's `DateTime::parse_from_rfc3339`, `with_timezone` and
/// `format`: renders an RFC 3339 timestamp in the machine's local time zone
/// at minute precision. The result depends on that time zone, so nothing is
/// promised of it; text that does not parse is handed back unchanged.
#[verifier::external_body]
fn local_minute_display(rfc: &str) -> String {
    match chrono::DateTime::parse_from_rfc3339(rfc) {
        Ok(dt) => dt.with_timezone(&chrono::Local).format("%F %H:%M").to_string(),
        Err(_) => rfc.to_owned(),
    }
}

/// The store: an ordered collection of records, addressed by position,
/// bound to the name of the file it is kept in.
pub struct TasksManager {
    file: String,
    tasks: Vec<Task>,
}

impl View for TasksManager {
    type V = Seq<TaskView>;

    closed spec fn view(&self) -> Seq<TaskView> {
        seq_view(self.tasks@)
    }
}

impl TasksManager {
    /// The file name this store is bound to.
    pub closed spec fn path(&self) -> Seq<char> {
        self.file@
    }

    /// A store bound to `file`, holding nothing until `load` is called.
    pub fn new(file: String) -> (m: TasksManager)
        ensures
            m@ == Seq::<TaskView>::empty(),
            m.path() == file@,
    {
        let m = TasksManager { file, tasks: Vec::new() };
        proof {
            assert(seq_view(m.tasks@) =~= Seq::<TaskView>::empty());
        }
        m
    }

    /// The file name the store was bound to.
    pub fn file(&self) -> (r: &String)
        ensures
            r@ == self.path(),
    {
        &self.file
    }

    /// The records, in order; a record's position is its ID.
    pub fn tasks(&self) -> (r: &Vec<Task>)
        ensures
            seq_view(r@) == self@,
    {
        &self.tasks
    }

    /// Replace the collection with what the file's text stores. Blank text
    /// is the empty collection, not an error; any other text that is not a
    /// JSON array of task records is malformed, and the collection is kept
    /// as it was.
    pub fn load(&mut self, content: &str) -> (r: Result<(), Error>)
        ensures
            final(self).path() == old(self).path(),
            match r {
                Ok(()) => p_top(content@) == Some(final(self)@),
                Err(e) => e matches Error::MalformedContent && p_top(content@) is None
                    && final(self)@ == old(self)@,
            },
            r is Ok <==> p_top(content@) is Some,
            content@.len() == 0 ==> r is Ok && final(self)@ == Seq::<TaskView>::empty(),
    {
        proof {
            if content@.len() == 0 {
                assert(p_ws(content@, 0) == 0);
                assert(p_top(content@) == Some(Seq::<TaskView>::empty()));
            }
        }
        match decode_tasks(content) {
            Ok(ts) => {
                self.tasks = ts;
                Ok(())
            },
            Err(e) => Err(e),
        }
    }

    /// The file's text for the collection as it now stands. The caller
    /// that overwrites an existing file must rewind and truncate it first.
    pub fn save(&self) -> (r: String)
        ensures
            r@ == enc_tasks(self@),
    {
        encode_tasks(&self.tasks)
    }

    /// Append one record at the end: its ID is the old length.
    fn add_task(&mut self, task: Task)
        ensures
            final(self)@ == old(self)@.push(task@),
            final(self).path() == old(self).path(),
    {
        self.tasks.push(task);
        proof {
            assert(seq_view(self.tasks@) =~= seq_view(old(self).tasks@).push(task@));
        }
    }

    /// Build a record from the arguments — defaults for what is omitted —
    /// and append it at the end.
    pub fn create_task(&mut self, create_args: CreateTaskArgs) -> (r: Result<(), Error>)
        ensures
            r is Ok,
            final(self).path() == old(self).path(),
            final(self)@.len() == old(self)@.len() + 1,
            final(self)@ == old(self)@.push(final(self)@.last()),
            final(self)@.last().name == create_args.name@,
            final(self)@.last().text == opt_view(create_args.text),
            final(self)@.last().status == status_opt_view(create_args.status),
    {
        let builder = Task::new(create_args.name.as_str());
        let builder = match &create_args.text {
            Some(t) => builder.text(t.as_str()),
            None => builder,
        };
        let builder = match create_args.status {
            Some(s) => builder.status(status_from_arg(s)),
            None => builder,
        };
        let task = builder.build();
        self.add_task(task);
        Ok(())
    }

    /// Overwrite the supplied fields of the record at position `id`, leave
    /// the others and the creation time untouched. Out of range, nothing
    /// changes and the ID is reported invalid.
    pub fn update_task(&mut self, update_args: UpdateTaskArgs) -> (r: Result<(), Error>)
        ensures
            final(self).path() == old(self).path(),
            r is Ok <==> update_args.id < old(self)@.len(),
            match r {
                Ok(()) => final(self)@ == old(self)@.update(
                    update_args.id as int,
                    updated_view(old(self)@[update_args.id as int], update_args),
                ),
                Err(e) => e matches Error::InvalidIndex && final(self)@ == old(self)@,
            },
    {
        let id = update_args.id;
        if id >= self.tasks.len() {
            return Err(Error::InvalidIndex);
        }
        let old_task = self.tasks.remove(id);
        let new_task = Task {
            name: match update_args.name {
                Some(n) => n,
                None => old_task.name,
            },
            text: match update_args.text {
                Some(x) => Some(x),
                None => old_task.text,
            },
            status: match update_args.status {
                Some(s) => status_from_arg(s),
                None => old_task.status,
            },
            created_at: old_task.created_at,
        };
        self.tasks.insert(id, new_task);
        proof {
            assert(seq_view(self.tasks@) =~= seq_view(old(self).tasks@).update(
                id as int,
                updated_view(old(self)@[id as int], update_args),
            ));
        }
        Ok(())
    }

    /// Remove the record at position `id`; every later record's ID drops by
    /// one. Out of range, nothing changes and the ID is reported invalid.
    pub fn delete_task(&mut self, index: usize) -> (r: Result<(), Error>)
        ensures
            final(self).path() == old(self).path(),
            r is Ok <==> index < old(self)@.len(),
            match r {
                Ok(()) => final(self)@ == old(self)@.remove(index as int),
                Err(e) => e matches Error::InvalidIndex && final(self)@ == old(self)@,
            },
    {
        if index >= self.tasks.len() {
            return Err(Error::InvalidIndex);
        }
        self.tasks.remove(index);
        proof {
            assert(seq_view(self.tasks@) =~= seq_view(old(self).tasks@).remove(index as int));
        }
        Ok(())
    }

    /// One printable row per record, in order: the ID is the position, an
    /// absent text shows as the empty string, the status as its word, and
    /// the creation time as the local-time rendering of the stored stamp.
    pub fn list_tasks(&self) -> (rows: Vec<TaskRow>)
        ensures
            rows@.len() == self@.len(),
            forall|i: int|
                #![trigger rows@[i]]
                0 <= i < rows@.len() ==> {
                    &&& rows@[i].id == i
                    &&& rows@[i].name@ == self@[i].name
                    &&& rows@[i].text@ == (match self@[i].text {
                        Some(t) => t,
                        None => Seq::<char>::empty(),
                    })
                    &&& rows@[i].status@ == status_chars(self@[i].status)
                },
    {
        let mut rows: Vec<TaskRow> = Vec::new();
        let mut i: usize = 0;
        while i < self.tasks.len()
            invariant
                i <= self.tasks@.len(),
                rows@.len() == i,
                forall|q: int|
                    #![trigger rows@[q]]
                    0 <= q < i ==> {
                        &&& rows@[q].id == q
                        &&& rows@[q].name@ == seq_view(self.tasks@)[q].name
                        &&& rows@[q].text@ == (match seq_view(self.tasks@)[q].text {
                            Some(t) => t,
                            None => Seq::<char>::empty(),
                        })
                        &&& rows@[q].status@ == status_chars(seq_view(self.tasks@)[q].status)
                    },
            decreases self.tasks@.len() - i,
        {
            let t = &self.tasks[i];
            let text = match &t.text {
                Some(s) => s.clone(),
                None => String::new(),
            };
            let row = TaskRow {
                id: i,
                name: t.name.clone(),
                text,
                status: t.status.to_string(),
                created_at: local_minute_display(t.created_at.as_str()),
            };
            rows.push(row);
            i += 1;
        }
        rows
    }
}

} // verus!
