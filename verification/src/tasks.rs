//! Task lifecycle: creation defaults, partial-update merge semantics with
//! the derived closing timestamp, deletion policy, and the listing pipeline
//! (filter, order newest-first, paginate).
//!
//! The status machine is caller-directed: any authorized update may set any
//! status. The one derived effect is `closed_at`: the first update that lands
//! on Done or Closed stamps it, a later re-close keeps the first stamp, and
//! moving back to an open status leaves the stamp as it was — a deliberate,
//! documented quirk kept for compatibility, not corrected here.

use vstd::prelude::*;

use crate::auth::AuthUser;
use crate::dto::{CreateTaskRequest, TaskFilterParams, TaskListItem, TaskResponse, UpdateTaskRequest};
use crate::errors::AppError;
use crate::models::{Task, TaskStatus, TaskUrgency, UserRole, status_is_terminal};
use crate::policy::{may_create_or_edit_task, may_delete_task};

verus! {

// ---------------------------------------------------------------------------
// creation
// ---------------------------------------------------------------------------
/// The record a creation request denotes: status starts at New, urgency
/// defaults to Medium, the creator is the caller, and the task is open.
pub open spec fn new_task_spec(
    req: CreateTaskRequest,
    id: u128,
    task_number: i32,
    creator: u128,
    now: i64,
) -> Task {
    Task {
        id,
        task_number,
        title: req.title,
        description: req.description,
        assigned_by: creator,
        tester_id: req.tester_id,
        status: TaskStatus::New,
        urgency: match req.urgency {
            Some(u) => u,
            None => TaskUrgency::Medium,
        },
        created_at: now,
        closed_at: None,
        acceptance_criteria: req.acceptance_criteria,
        evaluation_criteria: req.evaluation_criteria,
        comment: req.comment,
    }
}

/// A creation request that names no urgency yields a Medium task.
pub proof fn lemma_creation_urgency_default(
    req: CreateTaskRequest,
    id: u128,
    task_number: i32,
    creator: u128,
    now: i64,
)
    ensures
        req.urgency is None ==> new_task_spec(req, id, task_number, creator, now).urgency
            == TaskUrgency::Medium,
        new_task_spec(req, id, task_number, creator, now).status == TaskStatus::New,
        new_task_spec(req, id, task_number, creator, now).closed_at is None,
{
}

/// Builds the record of a new task; `id` and `task_number` come from the
/// storage layer's sequence.
pub fn create_task_record(
    req: CreateTaskRequest,
    id: u128,
    task_number: i32,
    creator: u128,
    now: i64,
) -> (r: Task)
    ensures
        r == new_task_spec(req, id, task_number, creator, now),
{
    let urgency = match req.urgency {
        Some(u) => u,
        None => TaskUrgency::Medium,
    };
    Task {
        id,
        task_number,
        title: req.title,
        description: req.description,
        assigned_by: creator,
        tester_id: req.tester_id,
        status: TaskStatus::New,
        urgency,
        created_at: now,
        closed_at: None,
        acceptance_criteria: req.acceptance_criteria,
        evaluation_criteria: req.evaluation_criteria,
        comment: req.comment,
    }
}

/// A creation is allowed to every role but Admin, and its title must have 1
/// to 255 characters.
pub fn create_task_checked(auth: &AuthUser, req: &CreateTaskRequest) -> (r: Result<(), AppError>)
    ensures
        !may_create_or_edit_task(auth.role) ==> (r matches Err(e) && e is Forbidden),
        (may_create_or_edit_task(auth.role) && !(1 <= req.title@.len() <= 255)) ==> (r matches Err(
            e,
        ) && e is BadRequest),
        (may_create_or_edit_task(auth.role) && 1 <= req.title@.len() <= 255) ==> r is Ok,
{
    if auth.is_admin() {
        return Err(AppError::Forbidden(String::from_str("Administrators cannot create tasks")));
    }
    let n = req.title.as_str().unicode_len();
    if n < 1 || n > 255 {
        return Err(AppError::BadRequest(String::from_str("Title must be 1-255 characters")));
    }
    Ok(())
}

// ---------------------------------------------------------------------------
// update
// ---------------------------------------------------------------------------
/// The closing timestamp an update derives: the first landing on Done or
/// Closed stamps `now`; re-closing keeps the old stamp; reopening clears
/// nothing.
pub open spec fn derived_closed_at(prev: Option<i64>, status: TaskStatus, now: i64) -> Option<
    i64,
> {
    if status_is_terminal(status) && prev is None {
        Some(now)
    } else {
        prev
    }
}

/// The record an update request denotes over an existing task: each present
/// field replaces, each absent field keeps the stored value; identifier,
/// number, creator and creation instant never change.
pub open spec fn updated_task_spec(t: Task, u: UpdateTaskRequest, now: i64) -> Task {
    let status = match u.status {
        Some(s) => s,
        None => t.status,
    };
    Task {
        id: t.id,
        task_number: t.task_number,
        title: match u.title {
            Some(s) => s,
            None => t.title,
        },
        description: match u.description {
            Some(s) => Some(s),
            None => t.description,
        },
        assigned_by: t.assigned_by,
        tester_id: match u.tester_id {
            Some(x) => Some(x),
            None => t.tester_id,
        },
        status,
        urgency: match u.urgency {
            Some(x) => x,
            None => t.urgency,
        },
        created_at: t.created_at,
        closed_at: derived_closed_at(t.closed_at, status, now),
        acceptance_criteria: match u.acceptance_criteria {
            Some(s) => Some(s),
            None => t.acceptance_criteria,
        },
        evaluation_criteria: match u.evaluation_criteria {
            Some(s) => Some(s),
            None => t.evaluation_criteria,
        },
        comment: match u.comment {
            Some(s) => Some(s),
            None => t.comment,
        },
    }
}

/// Closing twice is idempotent: the second close keeps the timestamp the
/// first one set, whatever instants the two updates ran at.
pub proof fn lemma_reclose_keeps_timestamp(
    t: Task,
    u1: UpdateTaskRequest,
    u2: UpdateTaskRequest,
    now1: i64,
    now2: i64,
)
    requires
        status_is_terminal(updated_task_spec(t, u1, now1).status),
        status_is_terminal(updated_task_spec(updated_task_spec(t, u1, now1), u2, now2).status),
    ensures
        updated_task_spec(updated_task_spec(t, u1, now1), u2, now2).closed_at == updated_task_spec(
            t,
            u1,
            now1,
        ).closed_at,
{
}

/// An update that omits a field keeps the stored value: in particular an
/// omitted title leaves the title untouched.
pub proof fn lemma_update_keeps_omitted_fields(t: Task, u: UpdateTaskRequest, now: i64)
    ensures
        u.title is None ==> updated_task_spec(t, u, now).title == t.title,
        u.tester_id is None ==> updated_task_spec(t, u, now).tester_id == t.tester_id,
        u.status is None ==> updated_task_spec(t, u, now).status == t.status,
        u.urgency is None ==> updated_task_spec(t, u, now).urgency == t.urgency,
        updated_task_spec(t, u, now).assigned_by == t.assigned_by,
        updated_task_spec(t, u, now).created_at == t.created_at,
{
}

/// A title given in an update must have 1 to 255 characters.
pub open spec fn update_request_valid(u: UpdateTaskRequest) -> bool {
    match u.title {
        Some(s) => 1 <= s@.len() <= 255,
        None => true,
    }
}

/// Decides and performs an update: Admin is refused, a bad title is
/// rejected, an absent task is not found, and otherwise the merged record
/// comes back for the caller to persist.
pub fn update_task_decision(
    auth: &AuthUser,
    existing: Option<Task>,
    upd: UpdateTaskRequest,
    now: i64,
) -> (r: Result<Task, AppError>)
    ensures
        !may_create_or_edit_task(auth.role) ==> (r matches Err(e) && e is Forbidden),
        (may_create_or_edit_task(auth.role) && !update_request_valid(upd)) ==> (r matches Err(e)
            && e is BadRequest),
        (may_create_or_edit_task(auth.role) && update_request_valid(upd) && existing is None) ==> (
        r matches Err(e) && e is NotFound),
        (may_create_or_edit_task(auth.role) && update_request_valid(upd)) ==> (
        existing matches Some(t) ==> r == Ok::<Task, AppError>(updated_task_spec(t, upd, now))),
{
    if auth.is_admin() {
        return Err(AppError::Forbidden(String::from_str("Administrators cannot edit tasks")));
    }
    match &upd.title {
        Some(s) => {
            let n = s.as_str().unicode_len();
            if n < 1 || n > 255 {
                return Err(
                    AppError::BadRequest(String::from_str("Title must be 1-255 characters")),
                );
            }
        },
        None => {},
    }
    let t = match existing {
        Some(t) => t,
        None => {
            return Err(AppError::NotFound(String::from_str("Task not found")));
        },
    };
    let status = match upd.status {
        Some(s) => s,
        None => t.status,
    };
    let closed_at = if status.is_terminal() {
        match t.closed_at {
            Some(ts) => Some(ts),
            None => Some(now),
        }
    } else {
        t.closed_at
    };
    Ok(
        Task {
            id: t.id,
            task_number: t.task_number,
            title: match upd.title {
                Some(s) => s,
                None => t.title,
            },
            description: match upd.description {
                Some(s) => Some(s),
                None => t.description,
            },
            assigned_by: t.assigned_by,
            tester_id: match upd.tester_id {
                Some(x) => Some(x),
                None => t.tester_id,
            },
            status,
            urgency: match upd.urgency {
                Some(x) => x,
                None => t.urgency,
            },
            created_at: t.created_at,
            closed_at,
            acceptance_criteria: match upd.acceptance_criteria {
                Some(s) => Some(s),
                None => t.acceptance_criteria,
            },
            evaluation_criteria: match upd.evaluation_criteria {
                Some(s) => Some(s),
                None => t.evaluation_criteria,
            },
            comment: match upd.comment {
                Some(s) => Some(s),
                None => t.comment,
            },
        },
    )
}

// ---------------------------------------------------------------------------
// deletion
// ---------------------------------------------------------------------------
/// Decides a deletion: Admin is always refused, an absent task is not found,
/// and otherwise only the creator or a manager may delete.
pub fn delete_task_decision(auth: &AuthUser, task: Option<&Task>) -> (r: Result<(), AppError>)
    ensures
        auth.role == UserRole::Admin ==> (r matches Err(e) && e is Forbidden),
        (auth.role != UserRole::Admin && task is None) ==> (r matches Err(e) && e is NotFound),
        auth.role != UserRole::Admin ==> (task matches Some(t) ==> ((!may_delete_task(
            auth.role,
            t.assigned_by,
            auth.user_id,
        ) ==> (r matches Err(e) && e is Forbidden)) && (may_delete_task(
            auth.role,
            t.assigned_by,
            auth.user_id,
        ) ==> r is Ok))),
{
    if auth.is_admin() {
        return Err(AppError::Forbidden(String::from_str("Administrators cannot manage tasks")));
    }
    let t = match task {
        Some(t) => t,
        None => {
            return Err(AppError::NotFound(String::from_str("Task not found")));
        },
    };
    if t.assigned_by != auth.user_id && !auth.is_manager() {
        return Err(
            AppError::Forbidden(
                String::from_str("Only the task creator or a manager can delete tasks"),
            ),
        );
    }
    Ok(())
}

// ---------------------------------------------------------------------------
// pagination
// ---------------------------------------------------------------------------
/// Pages are 1-based; anything below 1 becomes 1.
pub open spec fn clamped_page(page: Option<i64>) -> int {
    let p = match page {
        Some(p) => p as int,
        None => 1,
    };
    if p < 1 {
        1
    } else {
        p
    }
}

/// Page size defaults to 20 and is clamped into [1, 100].
pub open spec fn clamped_per_page(per_page: Option<i64>) -> int {
    let v = match per_page {
        Some(v) => v as int,
        None => 20,
    };
    if v < 1 {
        1
    } else if v > 100 {
        100
    } else {
        v
    }
}

/// Clamps a page selection.
pub fn clamp_pagination(page: Option<i64>, per_page: Option<i64>) -> (r: (i64, i64))
    ensures
        r.0 == clamped_page(page),
        r.1 == clamped_per_page(per_page),
{
    let p = match page {
        Some(p) => p,
        None => 1,
    };
    let p = if p < 1 {
        1
    } else {
        p
    };
    let v = match per_page {
        Some(v) => v,
        None => 20,
    };
    let v = if v < 1 {
        1
    } else if v > 100 {
        100
    } else {
        v
    };
    (p, v)
}

// ---------------------------------------------------------------------------
// listing
// ---------------------------------------------------------------------------
/// Whether a task passes every given filter (absent filters pass all).
pub open spec fn task_matches(t: Task, f: TaskFilterParams) -> bool {
    (match f.status {
        Some(s) => t.status == s,
        None => true,
    }) && (match f.urgency {
        Some(u) => t.urgency == u,
        None => true,
    }) && (match f.tester_id {
        Some(x) => t.tester_id == Some(x),
        None => true,
    }) && (match f.assigned_by {
        Some(x) => t.assigned_by == x,
        None => true,
    })
}

/// The subsequence passing the filters, in stored order.
pub open spec fn filter_tasks_spec(s: Seq<Task>, f: TaskFilterParams) -> Seq<Task>
    decreases s.len(),
{
    if s.len() == 0 {
        Seq::<Task>::empty()
    } else {
        (if task_matches(s[0], f) {
            seq![s[0]]
        } else {
            Seq::<Task>::empty()
        }) + filter_tasks_spec(s.drop_first(), f)
    }
}

/// Listing order: newest creation first, ties broken by id so pagination is
/// reproducible.
pub open spec fn task_le(a: Task, b: Task) -> bool {
    a.created_at > b.created_at || (a.created_at == b.created_at && a.id <= b.id)
}

/// Insertion into an ordered sequence, before the first element it precedes.
pub open spec fn insert_sorted_spec(x: Task, s: Seq<Task>) -> Seq<Task>
    decreases s.len(),
{
    if s.len() == 0 {
        seq![x]
    } else if task_le(x, s[0]) {
        seq![x] + s
    } else {
        seq![s[0]] + insert_sorted_spec(x, s.drop_first())
    }
}

/// Insertion sort of a sequence under the listing order.
pub open spec fn sort_tasks_spec(s: Seq<Task>) -> Seq<Task>
    decreases s.len(),
{
    if s.len() == 0 {
        Seq::<Task>::empty()
    } else {
        insert_sorted_spec(s.last(), sort_tasks_spec(s.drop_last()))
    }
}

/// The window a page selects, clipped to the sequence.
pub open spec fn window_spec(s: Seq<Task>, page: int, per_page: int) -> Seq<Task> {
    let len = s.len() as int;
    let start = (page - 1) * per_page;
    let lo = if start > len {
        len
    } else {
        start
    };
    let hi = if start + per_page > len {
        len
    } else {
        start + per_page
    };
    s.subrange(lo, hi)
}

/// The listing row of a task.
pub open spec fn item_spec(t: Task) -> TaskListItem {
    TaskListItem { id: t.id, task_number: t.task_number, title: t.title, status: t.status, urgency: t.urgency }
}

/// The listing rows of a sequence of tasks.
pub open spec fn items_spec(s: Seq<Task>) -> Seq<TaskListItem> {
    s.map_values(|t: Task| item_spec(t))
}

/// Exact contract of the task listing: filter, order, take the page, shape
/// the rows.
pub open spec fn list_tasks_spec(tasks: Seq<Task>, f: TaskFilterParams) -> Seq<TaskListItem> {
    items_spec(
        window_spec(
            sort_tasks_spec(filter_tasks_spec(tasks, f)),
            clamped_page(f.page),
            clamped_per_page(f.per_page),
        ),
    )
}

fn task_le_exec(a: &Task, b: &Task) -> (r: bool)
    ensures
        r == task_le(*a, *b),
{
    a.created_at > b.created_at || (a.created_at == b.created_at && a.id <= b.id)
}

/// Where `insert_sorted_spec` puts the new element: at the first position
/// whose occupant it precedes.
proof fn lemma_insert_sorted_at(x: Task, s: Seq<Task>, i: int)
    requires
        0 <= i <= s.len(),
        forall|j: int| 0 <= j < i ==> !task_le(x, s[j]),
        i < s.len() ==> task_le(x, s[i]),
    ensures
        insert_sorted_spec(x, s) == s.insert(i, x),
    decreases i,
{
    if i == 0 {
        if s.len() == 0 {
            assert(insert_sorted_spec(x, s) =~= s.insert(0, x));
        } else {
            assert(seq![x] + s =~= s.insert(0, x));
        }
    } else {
        assert(!task_le(x, s[0]));
        lemma_insert_sorted_at(x, s.drop_first(), i - 1);
        assert(seq![s[0]] + s.drop_first().insert(i - 1, x) =~= s.insert(i, x));
    }
}

fn insert_sorted(v: &mut Vec<Task>, x: Task)
    ensures
        final(v)@ == insert_sorted_spec(x, old(v)@),
{
    let mut idx: usize = 0;
    while idx < v.len() && !task_le_exec(&x, &v[idx])
        invariant
            0 <= idx <= v@.len(),
            v@ == old(v)@,
            forall|j: int| 0 <= j < idx ==> !task_le(x, v@[j]),
        decreases v@.len() - idx,
    {
        idx = idx + 1;
    }
    proof {
        lemma_insert_sorted_at(x, v@, idx as int);
    }
    v.insert(idx, x);
}

/// Filters, orders and pages a snapshot of the task store.
pub fn list_tasks(tasks: Vec<Task>, params: &TaskFilterParams) -> (r: Vec<TaskListItem>)
    ensures
        r@ == list_tasks_spec(tasks@, *params),
{
    let ghost orig = tasks@;
    let ghost f = *params;
    // filter
    let mut rest = tasks;
    let mut kept: Vec<Task> = Vec::new();
    while rest.len() > 0
        invariant
            f == *params,
            filter_tasks_spec(orig, f) == kept@ + filter_tasks_spec(rest@, f),
        decreases rest@.len(),
    {
        let ghost before = rest@;
        let t = rest.remove(0);
        proof {
            assert(before.drop_first() =~= rest@);
            assert(t == before[0]);
            assert(filter_tasks_spec(before, f) == (if task_matches(before[0], f) {
                seq![before[0]]
            } else {
                Seq::<Task>::empty()
            }) + filter_tasks_spec(rest@, f));
        }
        if task_matches_exec(&t, params) {
            let ghost kept_before = kept@;
            kept.push(t);
            proof {
                assert(kept@ =~= kept_before + seq![before[0]]);
                assert(kept_before + (seq![before[0]] + filter_tasks_spec(rest@, f)) =~= kept@
                    + filter_tasks_spec(rest@, f));
            }
        } else {
            proof {
                assert(kept@ + (Seq::<Task>::empty() + filter_tasks_spec(rest@, f)) =~= kept@
                    + filter_tasks_spec(rest@, f));
            }
        }
    }
    proof {
        assert(kept@ + filter_tasks_spec(rest@, f) =~= kept@);
        assert(kept@ == filter_tasks_spec(orig, f));
    }
    // sort
    let ghost fseq = kept@;
    let mut rest2 = kept;
    let mut sorted: Vec<Task> = Vec::new();
    let ghost mut done: int = 0;
    while rest2.len() > 0
        invariant
            0 <= done <= fseq.len(),
            rest2@ =~= fseq.subrange(done, fseq.len() as int),
            sorted@ == sort_tasks_spec(fseq.subrange(0, done)),
        decreases rest2@.len(),
    {
        let ghost before = rest2@;
        let t = rest2.remove(0);
        proof {
            assert(before.drop_first() =~= rest2@);
            assert(t == fseq[done]);
        }
        insert_sorted(&mut sorted, t);
        proof {
            done = done + 1;
            assert(fseq.subrange(0, done).drop_last() =~= fseq.subrange(0, done - 1));
            assert(fseq.subrange(0, done).last() == fseq[done - 1]);
            assert(rest2@ =~= fseq.subrange(done, fseq.len() as int));
        }
    }
    proof {
        assert(done == fseq.len());
        assert(fseq.subrange(0, done) =~= fseq);
        assert(sorted@ == sort_tasks_spec(fseq));
    }
    // page window
    let (page, per_page) = clamp_pagination(params.page, params.per_page);
    let len = sorted.len();
    let pm1: i128 = page as i128 - 1;
    proof {
        assert(0 <= pm1 * (per_page as i128) <= 0x8000_0000_0000_0000_0000 * 100)
            by (nonlinear_arith)
            requires
                0 <= pm1 <= 0x8000_0000_0000_0000_0000,
                1 <= per_page <= 100,
        {
        }
    }
    let start_wide: i128 = pm1 * (per_page as i128);
    let lo: usize = if start_wide > len as i128 {
        len
    } else {
        start_wide as usize
    };
    let hi: usize = if start_wide + per_page as i128 > len as i128 {
        len
    } else {
        (start_wide + per_page as i128) as usize
    };
    // shape the rows
    let ghost win = window_spec(sorted@, clamped_page(f.page), clamped_per_page(f.per_page));
    let mut out: Vec<TaskListItem> = Vec::new();
    let mut j: usize = lo;
    proof {
        assert(win =~= sorted@.subrange(lo as int, hi as int));
    }
    while j < hi
        invariant
            lo <= j <= hi,
            hi <= sorted@.len(),
            win =~= sorted@.subrange(lo as int, hi as int),
            out@ =~= sorted@.subrange(lo as int, j as int).map_values(|t: Task| item_spec(t)),
        decreases hi - j,
    {
        let t = &sorted[j];
        out.push(
            TaskListItem {
                id: t.id,
                task_number: t.task_number,
                title: t.title.clone(),
                status: t.status,
                urgency: t.urgency,
            },
        );
        proof {
            assert(out@ =~= sorted@.subrange(lo as int, j + 1).map_values(
                |t: Task| item_spec(t),
            ));
        }
        j = j + 1;
    }
    proof {
        assert(out@ =~= items_spec(win));
    }
    out
}

fn task_matches_exec(t: &Task, f: &TaskFilterParams) -> (r: bool)
    ensures
        r == task_matches(*t, *f),
{
    let status_ok = match f.status {
        Some(s) => t.status == s,
        None => true,
    };
    let urgency_ok = match f.urgency {
        Some(u) => t.urgency == u,
        None => true,
    };
    let tester_ok = match f.tester_id {
        Some(x) => match t.tester_id {
            Some(y) => x == y,
            None => false,
        },
        None => true,
    };
    let creator_ok = match f.assigned_by {
        Some(x) => t.assigned_by == x,
        None => true,
    };
    status_ok && urgency_ok && tester_ok && creator_ok
}

// ---------------------------------------------------------------------------
// detail shaping
// ---------------------------------------------------------------------------
/// Shapes a task for the detail response; the caller resolves the two
/// display names from the store.
pub fn task_to_response(
    t: Task,
    assigned_by_name: Option<String>,
    tester_name: Option<String>,
) -> (r: TaskResponse)
    ensures
        r.id == t.id,
        r.task_number == t.task_number,
        r.title == t.title,
        r.description == t.description,
        r.assigned_by == t.assigned_by,
        r.assigned_by_name == assigned_by_name,
        r.tester_id == t.tester_id,
        r.tester_name == tester_name,
        r.status == t.status,
        r.urgency == t.urgency,
        r.created_at == t.created_at,
        r.closed_at == t.closed_at,
        r.acceptance_criteria == t.acceptance_criteria,
        r.evaluation_criteria == t.evaluation_criteria,
        r.comment == t.comment,
{
    TaskResponse {
        id: t.id,
        task_number: t.task_number,
        title: t.title,
        description: t.description,
        assigned_by: t.assigned_by,
        assigned_by_name,
        tester_id: t.tester_id,
        tester_name,
        status: t.status,
        urgency: t.urgency,
        created_at: t.created_at,
        closed_at: t.closed_at,
        acceptance_criteria: t.acceptance_criteria,
        evaluation_criteria: t.evaluation_criteria,
        comment: t.comment,
    }
}

} // verus!
