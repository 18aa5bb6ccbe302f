//! The descriptive texts that operations attach to their results, each
//! rendered exactly as its spec-level counterpart states.

use vstd::prelude::*;
use vstd::string::{StrSliceExecFns, StringExecFns};

use crate::task::{input_valid, PayloadSpec, MIN_DESCRIPTION_CHARS, MIN_TITLE_CHARS};
use crate::text::{spec_digits, u64_to_string};

verus! {

/// Message of `NotFound` from a lookup.
pub open spec fn msg_not_found_get(id: u64) -> Seq<char> {
    "a task with id="@ + spec_digits(id as nat) + " not found"@
}

/// Message of `NotFound` from an update or completion.
pub open spec fn msg_not_found_update(id: u64) -> Seq<char> {
    "couldn't update a task with id="@ + spec_digits(id as nat) + ". task not found"@
}

/// Message of `NotFound` from a deletion.
pub open spec fn msg_not_found_delete(id: u64) -> Seq<char> {
    "couldn't delete a task with id="@ + spec_digits(id as nat) + ". task not found."@
}

/// Message of `AuthenticationFailed`: names the caller and the task.
pub open spec fn msg_not_owner(caller: Seq<char>, id: u64) -> Seq<char> {
    "Caller="@ + caller + " isn't the owner of the task with id="@ + spec_digits(id as nat)
}

/// Message of `ValidationFailed` when a length constraint is violated.
pub open spec fn msg_validation(title_ok: bool, desc_ok: bool) -> Seq<char>
    recommends
        !title_ok || !desc_ok,
{
    if !title_ok && !desc_ok {
        "title must be at least 3 characters long; description must be at least 5 characters long"@
    } else if !title_ok {
        "title must be at least 3 characters long"@
    } else {
        "description must be at least 5 characters long"@
    }
}

/// Message of `ValidationFailed` when the due date lies in the past: reports
/// both the offending due date and the current time.
pub open spec fn msg_due_date(due: u64, now: u64) -> Seq<char> {
    "Due date="@ + spec_digits(due as nat) + " is currently set to be less than the current timestamp="@
        + spec_digits(now as nat) + "."@
}

/// The message an invalid payload is rejected with: the violated length
/// constraints come first; the due date is only reported once lengths pass.
pub open spec fn spec_check_input_msg(p: PayloadSpec, now: u64) -> Seq<char>
    recommends
        !input_valid(p, now),
{
    if p.title.len() < MIN_TITLE_CHARS || p.description.len() < MIN_DESCRIPTION_CHARS {
        msg_validation(p.title.len() >= MIN_TITLE_CHARS, p.description.len() >= MIN_DESCRIPTION_CHARS)
    } else {
        msg_due_date(p.due_date, now)
    }
}

/// The outcome text of a successful completion: on time when the due date is
/// no earlier than the completion time, late otherwise.
pub open spec fn msg_outcome(on_time: bool, now: u64, due: u64) -> Seq<char> {
    (if on_time {
        "Successfully completed task on time="@
    } else {
        "Failed to complete task on time="@
    }) + spec_digits(now as nat) + " before due time="@ + spec_digits(due as nat)
}

pub fn render_not_found_get(id: u64) -> (r: String)
    ensures
        r@ == msg_not_found_get(id),
{
    let mut s = String::from_str("a task with id=");
    let d = u64_to_string(id);
    s.append(d.as_str());
    s.append(" not found");
    assert(s@ =~= msg_not_found_get(id));
    s
}

pub fn render_not_found_update(id: u64) -> (r: String)
    ensures
        r@ == msg_not_found_update(id),
{
    let mut s = String::from_str("couldn't update a task with id=");
    let d = u64_to_string(id);
    s.append(d.as_str());
    s.append(". task not found");
    assert(s@ =~= msg_not_found_update(id));
    s
}

pub fn render_not_found_delete(id: u64) -> (r: String)
    ensures
        r@ == msg_not_found_delete(id),
{
    let mut s = String::from_str("couldn't delete a task with id=");
    let d = u64_to_string(id);
    s.append(d.as_str());
    s.append(". task not found.");
    assert(s@ =~= msg_not_found_delete(id));
    s
}

pub fn render_not_owner(caller: &String, id: u64) -> (r: String)
    ensures
        r@ == msg_not_owner(caller@, id),
{
    let mut s = String::from_str("Caller=");
    s.append(caller.as_str());
    s.append(" isn't the owner of the task with id=");
    let d = u64_to_string(id);
    s.append(d.as_str());
    assert(s@ =~= msg_not_owner(caller@, id));
    s
}

pub fn render_validation(title_ok: bool, desc_ok: bool) -> (r: String)
    requires
        !title_ok || !desc_ok,
    ensures
        r@ == msg_validation(title_ok, desc_ok),
{
    if !title_ok && !desc_ok {
        String::from_str(
            "title must be at least 3 characters long; description must be at least 5 characters long",
        )
    } else if !title_ok {
        String::from_str("title must be at least 3 characters long")
    } else {
        String::from_str("description must be at least 5 characters long")
    }
}

pub fn render_due_date(due: u64, now: u64) -> (r: String)
    ensures
        r@ == msg_due_date(due, now),
{
    let mut s = String::from_str("Due date=");
    let d = u64_to_string(due);
    s.append(d.as_str());
    s.append(" is currently set to be less than the current timestamp=");
    let n = u64_to_string(now);
    s.append(n.as_str());
    s.append(".");
    assert(s@ =~= msg_due_date(due, now));
    s
}

pub fn render_outcome(on_time: bool, now: u64, due: u64) -> (r: String)
    ensures
        r@ == msg_outcome(on_time, now, due),
{
    let mut s = if on_time {
        String::from_str("Successfully completed task on time=")
    } else {
        String::from_str("Failed to complete task on time=")
    };
    let n = u64_to_string(now);
    s.append(n.as_str());
    s.append(" before due time=");
    let d = u64_to_string(due);
    s.append(d.as_str());
    assert(s@ =~= msg_outcome(on_time, now, due));
    s
}

} // verus!
