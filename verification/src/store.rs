//! The task record store: the monotonic identifier cell, the ordered record
//! index, and the CRUD protocol with its validation, authorization and
//! lifecycle rules. Each operation runs to completion against the store and
//! either persists fully or fails before any persistence.

use vstd::prelude::*;
use vstd::string::StrSliceExecFns;

use crate::codec::{
    decode_task, encode_task, lemma_decode_encode_task, lemma_encode_decode_task, record_fits,
    spec_decode_task, spec_encode_task, spec_encoded_len,
};
use crate::messages::{
    msg_not_found_delete, msg_not_found_get, msg_not_found_update, msg_not_owner, msg_outcome,
    render_due_date, render_not_found_delete, render_not_found_get, render_not_found_update,
    render_not_owner, render_outcome, render_validation, spec_check_input_msg,
};
use crate::storage::{counter_value, index_map, storage_init, StableCounter, StableIndex};
use crate::task::{
    input_valid, Error, PayloadSpec, Task, TaskPayload, TaskSpec, MIN_DESCRIPTION_CHARS,
    MIN_TITLE_CHARS,
};

verus! {

/// The record `create` constructs: owner and creation time fixed at creation,
/// not yet completed, never yet updated.
pub open spec fn new_task_spec(id: u64, owner: Seq<char>, p: PayloadSpec, now: u64) -> TaskSpec {
    TaskSpec {
        id,
        owner,
        title: p.title,
        description: p.description,
        due_date: p.due_date,
        completed: false,
        created_at: now,
        updated_at: None,
    }
}

/// The record `update` persists: the proposed fields replace the old ones,
/// the update time is set, everything else is untouched.
pub open spec fn updated_task_spec(t: TaskSpec, p: PayloadSpec, now: u64) -> TaskSpec {
    TaskSpec {
        title: p.title,
        description: p.description,
        due_date: p.due_date,
        updated_at: Some(now),
        ..t
    }
}

/// The record `complete` persists: only the completed flag and the update
/// time change.
pub open spec fn completed_task_spec(t: TaskSpec, now: u64) -> TaskSpec {
    TaskSpec { completed: true, updated_at: Some(now), ..t }
}

/// A successful `create` step: the payload was valid, the task got the
/// pre-state counter as identifier, and the counter moved up by one.
pub open spec fn create_ok(
    pre: Map<u64, TaskSpec>,
    pre_ctr: u64,
    caller: Seq<char>,
    p: PayloadSpec,
    now: u64,
    post: Map<u64, TaskSpec>,
    post_ctr: u64,
    t: TaskSpec,
) -> bool {
    &&& input_valid(p, now)
    &&& t == new_task_spec(pre_ctr, caller, p, now)
    &&& post == pre.insert(pre_ctr, t)
    &&& post_ctr == pre_ctr + 1
}

/// A successful `update` step: the task existed, belonged to the caller, was
/// still open, the payload was valid, and the stored record was replaced.
pub open spec fn update_ok(
    pre: Map<u64, TaskSpec>,
    caller: Seq<char>,
    id: u64,
    p: PayloadSpec,
    now: u64,
    post: Map<u64, TaskSpec>,
) -> bool {
    &&& pre.contains_key(id)
    &&& pre[id].owner == caller
    &&& !pre[id].completed
    &&& input_valid(p, now)
    &&& post == pre.insert(id, updated_task_spec(pre[id], p, now))
}

/// A successful `complete` step: the task existed, belonged to the caller,
/// was still open, and is now completed.
pub open spec fn complete_ok(
    pre: Map<u64, TaskSpec>,
    caller: Seq<char>,
    id: u64,
    now: u64,
    post: Map<u64, TaskSpec>,
) -> bool {
    &&& pre.contains_key(id)
    &&& pre[id].owner == caller
    &&& !pre[id].completed
    &&& post == pre.insert(id, completed_task_spec(pre[id], now))
}

/// A successful `delete` step: the task existed, belonged to the caller, and
/// is gone. Deleting a completed task is deliberately permitted: only update
/// and completion guard the completed flag.
pub open spec fn delete_ok(
    pre: Map<u64, TaskSpec>,
    caller: Seq<char>,
    id: u64,
    post: Map<u64, TaskSpec>,
) -> bool {
    &&& pre.contains_key(id)
    &&& pre[id].owner == caller
    &&& post == pre.remove(id)
}

/// Checks a proposed payload: length constraints first, then the temporal
/// constraint, reporting the first violation.
pub fn _check_input(payload: &TaskPayload, now: u64) -> (r: Result<(), Error>)
    ensures
        r is Ok <==> input_valid(payload@, now),
        r matches Err(e) ==> e matches Error::ValidationFailed { content } && content@
            == spec_check_input_msg(payload@, now),
{
    let title_ok = payload.title.as_str().unicode_len() >= MIN_TITLE_CHARS;
    let desc_ok = payload.description.as_str().unicode_len() >= MIN_DESCRIPTION_CHARS;
    if !title_ok || !desc_ok {
        Err(Error::ValidationFailed { content: render_validation(title_ok, desc_ok) })
    } else if payload.due_date < now {
        Err(Error::ValidationFailed { content: render_due_date(payload.due_date, now) })
    } else {
        Ok(())
    }
}

/// Checks that the caller owns the task.
pub fn _check_if_owner(task: &Task, caller: &String) -> (r: Result<(), Error>)
    ensures
        r is Ok <==> task@.owner == caller@,
        r matches Err(e) ==> e matches Error::AuthenticationFailed { msg } && msg@ == msg_not_owner(
            caller@,
            task@.id,
        ),
{
    if task.owner == *caller {
        Ok(())
    } else {
        Err(Error::AuthenticationFailed { msg: render_not_owner(caller, task.id) })
    }
}

/// The persistent task store: a monotonic identifier cell in one storage
/// region and an ordered record index in another.
pub struct TaskStore {
    counter: StableCounter,
    index: StableIndex,
}

impl View for TaskStore {
    type V = Map<u64, TaskSpec>;

    /// The records currently stored, as decoded values.
    closed spec fn view(&self) -> Map<u64, TaskSpec> {
        Map::new(
            |k: u64| index_map(self.index).contains_key(k),
            |k: u64| spec_decode_task(index_map(self.index)[k])->Some_0,
        )
    }
}

impl TaskStore {
    /// The identifier the next created task will receive.
    pub closed spec fn next_id(&self) -> u64 {
        counter_value(self.counter)
    }

    /// Well-formedness: every stored entry decodes to a record that fits the
    /// encoding bound, carries its own key as identifier, and was issued
    /// before the counter's current value.
    pub closed spec fn wf(&self) -> bool {
        forall|k: u64| #[trigger]
            index_map(self.index).contains_key(k) ==> {
                let d = spec_decode_task(index_map(self.index)[k]);
                &&& d is Some
                &&& d->Some_0.id == k
                &&& record_fits(d->Some_0)
                &&& k < counter_value(self.counter)
            }
    }

    /// The bytes persisted in the record index, by identifier.
    pub closed spec fn raw(&self) -> Map<u64, Seq<u8>> {
        index_map(self.index)
    }

    /// Each record is persisted as its one canonical encoding, so the stored
    /// bytes are determined by the records: in particular, wherever two
    /// well-formed states hold equal records they are byte-identical.
    pub proof fn lemma_bytes_canonical(&self)
        requires
            self.wf(),
        ensures
            forall|k: u64| #[trigger]
                self.raw().contains_key(k) ==> self.raw()[k] == spec_encode_task(self@[k]),
            self.raw().dom() == self@.dom(),
    {
        assert forall|k: u64| #[trigger] self.raw().contains_key(k) implies self.raw()[k]
            == spec_encode_task(self@[k]) by {
            lemma_decode_encode_task(self.raw()[k]);
        }
        assert(self.raw().dom() =~= self@.dom());
    }

    /// Every stored record carries its own key as identifier.
    pub proof fn lemma_wf_ids(&self)
        requires
            self.wf(),
        ensures
            forall|k: u64| self@.contains_key(k) ==> (#[trigger] self@[k]).id == k,
    {
    }

    /// Reads the identifier the next created task will receive.
    pub fn next_id_value(&self) -> (r: u64)
        ensures
            r == self.next_id(),
    {
        self.counter.value()
    }

    /// A fresh store: empty, with identifiers starting at 0.
    pub fn new() -> (r: TaskStore)
        ensures
            r.wf(),
            r@ == Map::<u64, TaskSpec>::empty(),
            r.next_id() == 0,
    {
        let s = storage_init();
        let r = TaskStore { counter: s.counter, index: s.index };
        proof {
            assert(r@ =~= Map::<u64, TaskSpec>::empty());
        }
        r
    }

    /// Stores a record under its own identifier, overwriting any previous
    /// record there.
    pub fn do_insert_task(&mut self, task: &Task)
        requires
            old(self).wf(),
            record_fits(task@),
            task@.id < old(self).next_id(),
        ensures
            final(self).wf(),
            final(self)@ == old(self)@.insert(task@.id, task@),
            final(self).next_id() == old(self).next_id(),
    {
        proof {
            lemma_encode_decode_task(task@);
        }
        let bytes = encode_task(task);
        let _prev = self.index.insert(task.id, bytes);
        proof {
            let m0 = index_map(old(self).index);
            let m1 = index_map(self.index);
            assert forall|k: u64| #[trigger] m1.contains_key(k) implies {
                let d = spec_decode_task(m1[k]);
                &&& d is Some
                &&& d->Some_0.id == k
                &&& record_fits(d->Some_0)
                &&& k < counter_value(self.counter)
            } by {
                if k != task@.id {
                    assert(m0.contains_key(k));
                }
            }
            assert(self@ =~= old(self)@.insert(task@.id, task@));
        }
    }

    /// Looks a record up by identifier.
    pub fn _get_task(&self, id: &u64) -> (r: Option<Task>)
        requires
            self.wf(),
        ensures
            match r {
                Some(t) => self@.contains_key(*id) && t@ == self@[*id],
                None => !self@.contains_key(*id),
            },
    {
        match self.index.get(*id) {
            Some(bytes) => {
                match decode_task(&bytes) {
                    Some(t) => Some(t),
                    None => {
                        proof {
                            assert(false);
                        }
                        None
                    },
                }
            },
            None => None,
        }
    }

    /// Returns the record stored under the identifier, or `NotFound` naming
    /// the missing id. Reads are not authenticated: any caller may read any
    /// task.
    pub fn get_task(&self, id: u64) -> (r: Result<Task, Error>)
        requires
            self.wf(),
        ensures
            match r {
                Ok(t) => self@.contains_key(id) && t@ == self@[id],
                Err(e) => !self@.contains_key(id) && (e matches Error::NotFound { msg } && msg@
                    == msg_not_found_get(id)),
            },
    {
        match self._get_task(&id) {
            Some(task) => Ok(task),
            None => Err(Error::NotFound { msg: render_not_found_get(id) }),
        }
    }

    /// Creates a task from a valid payload: validates, issues the next
    /// identifier, stores the record, and returns it. An invalid payload is
    /// rejected with `ValidationFailed` and the store is untouched.
    pub fn add_task(&mut self, caller: &String, now: u64, payload: TaskPayload) -> (r: Result<
        Task,
        Error,
    >)
        requires
            old(self).wf(),
            old(self).next_id() < u64::MAX,
            input_valid(payload@, now) ==> record_fits(
                new_task_spec(old(self).next_id(), caller@, payload@, now),
            ),
        ensures
            final(self).wf(),
            old(self).next_id() <= final(self).next_id(),
            match r {
                Ok(t) => create_ok(
                    old(self)@,
                    old(self).next_id(),
                    caller@,
                    payload@,
                    now,
                    final(self)@,
                    final(self).next_id(),
                    t@,
                ),
                Err(e) => {
                    &&& !input_valid(payload@, now)
                    &&& final(self)@ == old(self)@
                    &&& final(self).next_id() == old(self).next_id()
                    &&& e matches Error::ValidationFailed { content } && content@
                        == spec_check_input_msg(payload@, now)
                },
            },
    {
        match _check_input(&payload, now) {
            Err(e) => {
                return Err(e);
            },
            Ok(()) => {},
        }
        let id = self.counter.value();
        self.counter.set(id + 1);
        let TaskPayload { title, description, due_date } = payload;
        let task = Task {
            id,
            owner: caller.clone(),
            title,
            description,
            due_date,
            completed: false,
            created_at: now,
            updated_at: None,
        };
        self.do_insert_task(&task);
        Ok(task)
    }

    /// Replaces the proposed fields of an open task owned by the caller. The
    /// checks short-circuit in order: existence, then ownership, then
    /// lifecycle, then validation; the first failure is returned and nothing
    /// is persisted.
    pub fn update_task(&mut self, caller: &String, id: u64, now: u64, payload: TaskPayload) -> (r:
        Result<Task, Error>)
        requires
            old(self).wf(),
            (old(self)@.contains_key(id) && old(self)@[id].owner == caller@ && !old(
                self,
            )@[id].completed && input_valid(payload@, now)) ==> record_fits(
                updated_task_spec(old(self)@[id], payload@, now),
            ),
        ensures
            final(self).wf(),
            final(self).next_id() == old(self).next_id(),
            match r {
                Ok(t) => update_ok(old(self)@, caller@, id, payload@, now, final(self)@) && t@
                    == updated_task_spec(old(self)@[id], payload@, now),
                Err(e) => final(self)@ == old(self)@ && match e {
                    Error::NotFound { msg } => !old(self)@.contains_key(id) && msg@
                        == msg_not_found_update(id),
                    Error::AuthenticationFailed { msg } => old(self)@.contains_key(id) && old(
                        self,
                    )@[id].owner != caller@ && msg@ == msg_not_owner(caller@, id),
                    Error::AlreadyCompleted { msg } => old(self)@.contains_key(id) && old(
                        self,
                    )@[id].owner == caller@ && old(self)@[id].completed && msg@
                        == "Cannot update a completed task"@,
                    Error::ValidationFailed { content } => old(self)@.contains_key(id) && old(
                        self,
                    )@[id].owner == caller@ && !old(self)@[id].completed && !input_valid(
                        payload@,
                        now,
                    ) && content@ == spec_check_input_msg(payload@, now),
                },
            },
    {
        proof {
            self.lemma_wf_ids();
        }
        match self._get_task(&id) {
            None => Err(Error::NotFound { msg: render_not_found_update(id) }),
            Some(task0) => {
                match _check_if_owner(&task0, caller) {
                    Err(e) => {
                        return Err(e);
                    },
                    Ok(()) => {},
                }
                if task0.completed {
                    return Err(
                        Error::AlreadyCompleted {
                            msg: String::from_str("Cannot update a completed task"),
                        },
                    );
                }
                match _check_input(&payload, now) {
                    Err(e) => {
                        return Err(e);
                    },
                    Ok(()) => {},
                }
                let TaskPayload { title, description, due_date } = payload;
                let task = Task {
                    id: task0.id,
                    owner: task0.owner,
                    title,
                    description,
                    due_date,
                    completed: task0.completed,
                    created_at: task0.created_at,
                    updated_at: Some(now),
                };
                assert(task@ =~= updated_task_spec(old(self)@[id], payload@, now));
                self.do_insert_task(&task);
                Ok(task)
            },
        }
    }

    /// Marks an open task owned by the caller as completed and reports
    /// whether completion came on time (due date no earlier than now) or
    /// late. The completed record never changes again through this store.
    pub fn complete_task(&mut self, caller: &String, id: u64, now: u64) -> (r: Result<
        String,
        Error,
    >)
        requires
            old(self).wf(),
        ensures
            final(self).wf(),
            final(self).next_id() == old(self).next_id(),
            match r {
                Ok(m) => complete_ok(old(self)@, caller@, id, now, final(self)@) && m@
                    == msg_outcome(old(self)@[id].due_date >= now, now, old(self)@[id].due_date),
                Err(e) => final(self)@ == old(self)@ && match e {
                    Error::NotFound { msg } => !old(self)@.contains_key(id) && msg@
                        == msg_not_found_update(id),
                    Error::AuthenticationFailed { msg } => old(self)@.contains_key(id) && old(
                        self,
                    )@[id].owner != caller@ && msg@ == msg_not_owner(caller@, id),
                    Error::AlreadyCompleted { msg } => old(self)@.contains_key(id) && old(
                        self,
                    )@[id].owner == caller@ && old(self)@[id].completed && msg@
                        == "Task is already completed"@,
                    Error::ValidationFailed { content } => false,
                },
            },
    {
        proof {
            self.lemma_wf_ids();
        }
        match self._get_task(&id) {
            None => Err(Error::NotFound { msg: render_not_found_update(id) }),
            Some(task0) => {
                match _check_if_owner(&task0, caller) {
                    Err(e) => {
                        return Err(e);
                    },
                    Ok(()) => {},
                }
                if task0.completed {
                    return Err(
                        Error::AlreadyCompleted {
                            msg: String::from_str("Task is already completed"),
                        },
                    );
                }
                let due = task0.due_date;
                let task = Task {
                    id: task0.id,
                    owner: task0.owner,
                    title: task0.title,
                    description: task0.description,
                    due_date: task0.due_date,
                    completed: true,
                    created_at: task0.created_at,
                    updated_at: Some(now),
                };
                assert(task@ =~= completed_task_spec(old(self)@[id], now));
                assert(spec_encoded_len(task@) == spec_encoded_len(old(self)@[id]));
                self.do_insert_task(&task);
                let on_time = due >= now;
                Ok(render_outcome(on_time, now, due))
            },
        }
    }

    /// Removes a task owned by the caller and returns it; the identifier is
    /// never reused. Deleting a completed task is permitted, matching the
    /// guard structure of the other operations.
    pub fn delete_task(&mut self, caller: &String, id: u64) -> (r: Result<Task, Error>)
        requires
            old(self).wf(),
        ensures
            final(self).wf(),
            final(self).next_id() == old(self).next_id(),
            match r {
                Ok(t) => delete_ok(old(self)@, caller@, id, final(self)@) && t@ == old(self)@[id],
                Err(e) => final(self)@ == old(self)@ && match e {
                    Error::NotFound { msg } => !old(self)@.contains_key(id) && msg@
                        == msg_not_found_delete(id),
                    Error::AuthenticationFailed { msg } => old(self)@.contains_key(id) && old(
                        self,
                    )@[id].owner != caller@ && msg@ == msg_not_owner(caller@, id),
                    _ => false,
                },
            },
    {
        proof {
            self.lemma_wf_ids();
        }
        match self._get_task(&id) {
            None => Err(Error::NotFound { msg: render_not_found_delete(id) }),
            Some(task0) => {
                match _check_if_owner(&task0, caller) {
                    Err(e) => {
                        return Err(e);
                    },
                    Ok(()) => {},
                }
                let _removed = self.index.remove(id);
                proof {
                    assert forall|k: u64| #[trigger]
                        index_map(self.index).contains_key(k) implies {
                        let d = spec_decode_task(index_map(self.index)[k]);
                        &&& d is Some
                        &&& d->Some_0.id == k
                        &&& record_fits(d->Some_0)
                        &&& k < counter_value(self.counter)
                    } by {
                        assert(index_map(old(self).index).contains_key(k));
                    }
                    assert(self@ =~= old(self)@.remove(id));
                }
                Ok(task0)
            },
        }
    }
}

/// Uniqueness: identifiers issued by two creations, the second starting from
/// a counter no smaller than the first left behind, are strictly increasing;
/// in particular all identifiers a store ever issues are pairwise distinct,
/// since no operation ever decreases the counter.
pub proof fn lemma_create_ids_strictly_increase(
    m1: Map<u64, TaskSpec>,
    c1: u64,
    a1: Seq<char>,
    p1: PayloadSpec,
    n1: u64,
    m2: Map<u64, TaskSpec>,
    c2: u64,
    t1: TaskSpec,
    m3: Map<u64, TaskSpec>,
    c3: u64,
    a2: Seq<char>,
    p2: PayloadSpec,
    n2: u64,
    m4: Map<u64, TaskSpec>,
    c4: u64,
    t2: TaskSpec,
)
    requires
        create_ok(m1, c1, a1, p1, n1, m2, c2, t1),
        c2 <= c3,
        create_ok(m3, c3, a2, p2, n2, m4, c4, t2),
    ensures
        t1.id < t2.id,
{
}

/// Ownership enforcement: a task created by one caller is stored with that
/// caller as owner, so any differing caller fails the ownership check that
/// `update_task`, `complete_task` and `delete_task` perform, receives
/// `AuthenticationFailed`, and leaves the record unchanged (see their
/// contracts).
pub proof fn lemma_ownership_enforced(
    m1: Map<u64, TaskSpec>,
    c1: u64,
    a: Seq<char>,
    p: PayloadSpec,
    now: u64,
    m2: Map<u64, TaskSpec>,
    c2: u64,
    t: TaskSpec,
    b: Seq<char>,
)
    requires
        create_ok(m1, c1, a, p, now, m2, c2, t),
        b != a,
    ensures
        m2.contains_key(t.id),
        m2[t.id].owner != b,
{
}

/// Immutability after completion: once `complete` succeeds the stored record
/// is completed, so by the contracts of `update_task` and `complete_task`
/// every later update or completion by its owner returns `AlreadyCompleted`,
/// and no outcome of either changes the record.
pub proof fn lemma_completed_is_immutable(
    pre: Map<u64, TaskSpec>,
    caller: Seq<char>,
    id: u64,
    now: u64,
    post: Map<u64, TaskSpec>,
)
    requires
        complete_ok(pre, caller, id, now, post),
    ensures
        post.contains_key(id),
        post[id].completed,
        post[id].owner == caller,
{
}

/// Immutability after completion, at the byte level: two well-formed store
/// states holding equal records are byte-identical. Every outcome of
/// `update_task` and `complete_task` on a completed record leaves the
/// records unchanged (see their contracts), so the bytes stored for it after
/// completion never change.
pub proof fn lemma_same_records_same_bytes(s1: &TaskStore, s2: &TaskStore)
    requires
        s1.wf(),
        s2.wf(),
        s1@ == s2@,
    ensures
        s1.raw() == s2.raw(),
{
    s1.lemma_bytes_canonical();
    s2.lemma_bytes_canonical();
    assert(s1.raw() =~= s2.raw());
}

} // verus!
