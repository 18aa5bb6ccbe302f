//! The task record, the transient input payload, and the error taxonomy.

use vstd::prelude::*;

verus! {

/// Minimum number of characters a title must have.
pub const MIN_TITLE_CHARS: usize = 3;

/// Minimum number of characters a description must have.
pub const MIN_DESCRIPTION_CHARS: usize = 5;

/// Mathematical view of a task record.
#[verifier::ext_equal]
pub ghost struct TaskSpec {
    pub id: u64,
    pub owner: Seq<char>,
    pub title: Seq<char>,
    pub description: Seq<char>,
    pub due_date: u64,
    pub completed: bool,
    pub created_at: u64,
    pub updated_at: Option<u64>,
}

/// A persisted task record. `id` and `owner` are assigned at creation and
/// never change; once `completed` is true the record is immutable.
pub struct Task {
    pub id: u64,
    pub owner: String,
    pub title: String,
    pub description: String,
    pub due_date: u64,
    pub completed: bool,
    pub created_at: u64,
    pub updated_at: Option<u64>,
}

impl View for Task {
    type V = TaskSpec;

    open spec fn view(&self) -> TaskSpec {
        TaskSpec {
            id: self.id,
            owner: self.owner@,
            title: self.title@,
            description: self.description@,
            due_date: self.due_date,
            completed: self.completed,
            created_at: self.created_at,
            updated_at: self.updated_at,
        }
    }
}

impl Clone for Task {
    fn clone(&self) -> (r: Self)
        ensures
            r@ == self@,
    {
        Task {
            id: self.id,
            owner: self.owner.clone(),
            title: self.title.clone(),
            description: self.description.clone(),
            due_date: self.due_date,
            completed: self.completed,
            created_at: self.created_at,
            updated_at: self.updated_at,
        }
    }
}

/// Mathematical view of a task input payload.
#[verifier::ext_equal]
pub ghost struct PayloadSpec {
    pub title: Seq<char>,
    pub description: Seq<char>,
    pub due_date: u64,
}

/// The mutable fields a caller may propose for a task; transient, never stored.
pub struct TaskPayload {
    pub title: String,
    pub description: String,
    pub due_date: u64,
}

impl View for TaskPayload {
    type V = PayloadSpec;

    open spec fn view(&self) -> PayloadSpec {
        PayloadSpec { title: self.title@, description: self.description@, due_date: self.due_date }
    }
}

/// The recoverable outcomes of an operation; each carries a descriptive message.
#[derive(Debug)]
pub enum Error {
    NotFound { msg: String },
    ValidationFailed { content: String },
    AuthenticationFailed { msg: String },
    AlreadyCompleted { msg: String },
}

/// A payload is valid when the title has at least `MIN_TITLE_CHARS` characters,
/// the description at least `MIN_DESCRIPTION_CHARS`, and the due date is no
/// earlier than the current time.
pub open spec fn input_valid(p: PayloadSpec, now: u64) -> bool {
    &&& p.title.len() >= MIN_TITLE_CHARS
    &&& p.description.len() >= MIN_DESCRIPTION_CHARS
    &&& p.due_date >= now
}

} // verus!
