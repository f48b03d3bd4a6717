//! Employee statistics: for every non-admin user, how many tasks they are
//! assigned to test — in total, completed (Done or Closed), and in progress —
//! one row per user, ordered by full name (ties broken by id).

use vstd::prelude::*;

use crate::auth::AuthUser;
use crate::dto::EmployeeStats;
use crate::errors::AppError;
use crate::models::{Task, TaskStatus, User, UserRole, status_is_terminal};
use crate::policy::may_view_statistics;

verus! {

// ---------------------------------------------------------------------------
// counts
// ---------------------------------------------------------------------------
/// Number of tasks whose tester is `uid`.
pub open spec fn count_assigned(s: Seq<Task>, uid: u128) -> int
    decreases s.len(),
{
    if s.len() == 0 {
        0
    } else {
        count_assigned(s.drop_last(), uid) + (if s.last().tester_id == Some(uid) {
            1int
        } else {
            0int
        })
    }
}

/// Number of tasks whose tester is `uid` and whose status is Done or Closed.
pub open spec fn count_completed(s: Seq<Task>, uid: u128) -> int
    decreases s.len(),
{
    if s.len() == 0 {
        0
    } else {
        count_completed(s.drop_last(), uid) + (if s.last().tester_id == Some(uid)
            && status_is_terminal(s.last().status) {
            1int
        } else {
            0int
        })
    }
}

/// Number of tasks whose tester is `uid` and whose status is InProgress.
pub open spec fn count_in_progress(s: Seq<Task>, uid: u128) -> int
    decreases s.len(),
{
    if s.len() == 0 {
        0
    } else {
        count_in_progress(s.drop_last(), uid) + (if s.last().tester_id == Some(uid)
            && s.last().status == TaskStatus::InProgress {
            1int
        } else {
            0int
        })
    }
}

// ---------------------------------------------------------------------------
// report order
// ---------------------------------------------------------------------------
/// Strict lexicographic order on character sequences.
pub open spec fn lex_lt(a: Seq<char>, b: Seq<char>) -> bool
    decreases a.len(),
{
    if b.len() == 0 {
        false
    } else if a.len() == 0 {
        true
    } else if a[0] != b[0] {
        a[0] < b[0]
    } else {
        lex_lt(a.drop_first(), b.drop_first())
    }
}

/// Report order: by full name, ties by id.
pub open spec fn user_le(a: User, b: User) -> bool {
    lex_lt(a.full_name@, b.full_name@) || (a.full_name@ == b.full_name@ && a.id <= b.id)
}

/// The non-admin users, in stored order.
pub open spec fn non_admin_spec(s: Seq<User>) -> Seq<User>
    decreases s.len(),
{
    if s.len() == 0 {
        Seq::<User>::empty()
    } else {
        (if s[0].role != UserRole::Admin {
            seq![s[0]]
        } else {
            Seq::<User>::empty()
        }) + non_admin_spec(s.drop_first())
    }
}

/// Insertion into a sequence ordered by `user_le`.
pub open spec fn insert_user_spec(x: User, s: Seq<User>) -> Seq<User>
    decreases s.len(),
{
    if s.len() == 0 {
        seq![x]
    } else if user_le(x, s[0]) {
        seq![x] + s
    } else {
        seq![s[0]] + insert_user_spec(x, s.drop_first())
    }
}

/// Insertion sort of users under the report order.
pub open spec fn sort_users_spec(s: Seq<User>) -> Seq<User>
    decreases s.len(),
{
    if s.len() == 0 {
        Seq::<User>::empty()
    } else {
        insert_user_spec(s.last(), sort_users_spec(s.drop_last()))
    }
}

/// The report row of one user over a task snapshot.
pub open spec fn row_spec(u: User, tasks: Seq<Task>) -> EmployeeStats {
    EmployeeStats {
        user_id: u.id,
        full_name: u.full_name,
        total_tasks: count_assigned(tasks, u.id) as i64,
        completed_tasks: count_completed(tasks, u.id) as i64,
        in_progress_tasks: count_in_progress(tasks, u.id) as i64,
    }
}

/// Exact contract of the statistics report: one row per non-admin user,
/// ordered by full name then id, with the three counts over the snapshot.
pub open spec fn stats_spec(users: Seq<User>, tasks: Seq<Task>) -> Seq<EmployeeStats> {
    sort_users_spec(non_admin_spec(users)).map_values(|u: User| row_spec(u, tasks))
}

/// Statistics are for managers and administrators; everyone else is
/// Forbidden.
pub fn stats_checked(auth: &AuthUser) -> (r: Result<(), AppError>)
    ensures
        r is Ok <==> may_view_statistics(auth.role),
        r matches Err(e) ==> e is Forbidden,
{
    if auth.is_manager() || auth.is_admin() {
        Ok(())
    } else {
        Err(AppError::Forbidden(String::from_str("Only managers and admins can view statistics")))
    }
}

// ---------------------------------------------------------------------------
// execution
// ---------------------------------------------------------------------------
/// Two texts that agree on a prefix compare as their remainders do.
proof fn lemma_lex_common_prefix(a: Seq<char>, b: Seq<char>, i: int)
    requires
        0 <= i <= a.len(),
        i <= b.len(),
        forall|j: int| 0 <= j < i ==> a[j] == b[j],
    ensures
        lex_lt(a, b) == lex_lt(a.skip(i), b.skip(i)),
    decreases i,
{
    if i == 0 {
        assert(a.skip(0) =~= a);
        assert(b.skip(0) =~= b);
    } else {
        assert(a[0] == b[0]);
        assert(forall|j: int| 0 <= j < i - 1 ==> a.drop_first()[j] == b.drop_first()[j]);
        lemma_lex_common_prefix(a.drop_first(), b.drop_first(), i - 1);
        assert(a.drop_first().skip(i - 1) =~= a.skip(i));
        assert(b.drop_first().skip(i - 1) =~= b.skip(i));
    }
}

#[verifier::loop_isolation(false)]
fn user_le_exec(a: &User, b: &User) -> (r: bool)
    ensures
        r == user_le(*a, *b),
{
    let asx = a.full_name.as_str();
    let bsx = b.full_name.as_str();
    let an = asx.unicode_len();
    let bn = bsx.unicode_len();
    let ghost aseq = a.full_name@;
    let ghost bseq = b.full_name@;
    let mut i: usize = 0;
    while i < an && i < bn
        invariant
            0 <= i <= an,
            i <= bn,
            an == aseq.len(),
            bn == bseq.len(),
            aseq == asx@,
            bseq == bsx@,
            forall|j: int| 0 <= j < i ==> aseq[j] == bseq[j],
        decreases an - i,
    {
        let ca = asx.get_char(i);
        let cb = bsx.get_char(i);
        if ca != cb {
            proof {
                lemma_lex_common_prefix(aseq, bseq, i as int);
                assert(aseq.skip(i as int)[0] == aseq[i as int]);
                assert(bseq.skip(i as int)[0] == bseq[i as int]);
                assert(aseq.skip(i as int).len() > 0);
                assert(bseq.skip(i as int).len() > 0);
                assert(lex_lt(aseq, bseq) == (aseq[i as int] < bseq[i as int]));
                assert(aseq != bseq);
            }
            return ca < cb;
        }
        i = i + 1;
    }
    if an == bn {
        proof {
            lemma_lex_common_prefix(aseq, bseq, i as int);
            assert(aseq.skip(i as int).len() == 0);
            assert(!lex_lt(aseq, bseq));
            assert(aseq =~= bseq);
        }
        a.id <= b.id
    } else if an < bn {
        proof {
            lemma_lex_common_prefix(aseq, bseq, i as int);
            assert(aseq.skip(i as int).len() == 0);
            assert(bseq.skip(i as int).len() > 0);
            assert(lex_lt(aseq, bseq));
            assert(aseq.len() != bseq.len());
        }
        true
    } else {
        proof {
            lemma_lex_common_prefix(aseq, bseq, i as int);
            assert(bseq.skip(i as int).len() == 0);
            assert(!lex_lt(aseq, bseq));
            assert(aseq.len() != bseq.len());
        }
        false
    }
}

/// Where `insert_user_spec` puts the new element.
proof fn lemma_insert_user_at(x: User, s: Seq<User>, i: int)
    requires
        0 <= i <= s.len(),
        forall|j: int| 0 <= j < i ==> !user_le(x, s[j]),
        i < s.len() ==> user_le(x, s[i]),
    ensures
        insert_user_spec(x, s) == s.insert(i, x),
    decreases i,
{
    if i == 0 {
        if s.len() == 0 {
            assert(insert_user_spec(x, s) =~= s.insert(0, x));
        } else {
            assert(seq![x] + s =~= s.insert(0, x));
        }
    } else {
        assert(!user_le(x, s[0]));
        lemma_insert_user_at(x, s.drop_first(), i - 1);
        assert(seq![s[0]] + s.drop_first().insert(i - 1, x) =~= s.insert(i, x));
    }
}

fn insert_user(v: &mut Vec<User>, x: User)
    ensures
        final(v)@ == insert_user_spec(x, old(v)@),
{
    let mut idx: usize = 0;
    while idx < v.len() && !user_le_exec(&x, &v[idx])
        invariant
            0 <= idx <= v@.len(),
            v@ == old(v)@,
            forall|j: int| 0 <= j < idx ==> !user_le(x, v@[j]),
        decreases v@.len() - idx,
    {
        idx = idx + 1;
    }
    proof {
        lemma_insert_user_at(x, v@, idx as int);
    }
    v.insert(idx, x);
}

/// The three counts of one user over the snapshot.
fn counts_for(tasks: &Vec<Task>, uid: u128) -> (r: (usize, usize, usize))
    ensures
        r.0 == count_assigned(tasks@, uid),
        r.1 == count_completed(tasks@, uid),
        r.2 == count_in_progress(tasks@, uid),
{
    let mut total: usize = 0;
    let mut completed: usize = 0;
    let mut in_progress: usize = 0;
    let mut k: usize = 0;
    let n = tasks.len();
    proof {
        assert(tasks@.subrange(0, 0) =~= Seq::<Task>::empty());
    }
    while k < n
        invariant
            0 <= k <= n,
            n == tasks@.len(),
            total == count_assigned(tasks@.subrange(0, k as int), uid),
            completed == count_completed(tasks@.subrange(0, k as int), uid),
            in_progress == count_in_progress(tasks@.subrange(0, k as int), uid),
            total <= k,
            completed <= k,
            in_progress <= k,
        decreases n - k,
    {
        let t = &tasks[k];
        let assigned = match t.tester_id {
            Some(y) => y == uid,
            None => false,
        };
        proof {
            assert(tasks@.subrange(0, k + 1).drop_last() =~= tasks@.subrange(0, k as int));
            assert(tasks@.subrange(0, k + 1).last() == tasks@[k as int]);
        }
        if assigned {
            total = total + 1;
            if t.status.is_terminal() {
                completed = completed + 1;
            }
            if t.status == TaskStatus::InProgress {
                in_progress = in_progress + 1;
            }
        }
        k = k + 1;
    }
    proof {
        assert(tasks@.subrange(0, n as int) =~= tasks@);
    }
    (total, completed, in_progress)
}

/// Computes the statistics rows over snapshots of the user and task stores.
pub fn employee_stats_rows(users: Vec<User>, tasks: &Vec<Task>) -> (r: Vec<EmployeeStats>)
    requires
        tasks@.len() <= i64::MAX,
    ensures
        r@ == stats_spec(users@, tasks@),
{
    let ghost orig = users@;
    // keep the non-admin users
    let mut rest = users;
    let mut kept: Vec<User> = Vec::new();
    while rest.len() > 0
        invariant
            non_admin_spec(orig) == kept@ + non_admin_spec(rest@),
        decreases rest@.len(),
    {
        let ghost before = rest@;
        let u = rest.remove(0);
        proof {
            assert(before.drop_first() =~= rest@);
            assert(u == before[0]);
            assert(non_admin_spec(before) == (if before[0].role != UserRole::Admin {
                seq![before[0]]
            } else {
                Seq::<User>::empty()
            }) + non_admin_spec(rest@));
        }
        if u.role != UserRole::Admin {
            let ghost kept_before = kept@;
            kept.push(u);
            proof {
                assert(kept@ =~= kept_before + seq![before[0]]);
                assert(kept_before + (seq![before[0]] + non_admin_spec(rest@)) =~= kept@
                    + non_admin_spec(rest@));
            }
        } else {
            proof {
                assert(kept@ + (Seq::<User>::empty() + non_admin_spec(rest@)) =~= kept@
                    + non_admin_spec(rest@));
            }
        }
    }
    proof {
        assert(kept@ + non_admin_spec(rest@) =~= kept@);
        assert(kept@ == non_admin_spec(orig));
    }
    // order by full name, ties by id
    let ghost fseq = kept@;
    let mut rest2 = kept;
    let mut sorted: Vec<User> = Vec::new();
    let ghost mut done: int = 0;
    while rest2.len() > 0
        invariant
            0 <= done <= fseq.len(),
            rest2@ =~= fseq.subrange(done, fseq.len() as int),
            sorted@ == sort_users_spec(fseq.subrange(0, done)),
        decreases rest2@.len(),
    {
        let ghost before = rest2@;
        let u = rest2.remove(0);
        proof {
            assert(before.drop_first() =~= rest2@);
            assert(u == fseq[done]);
        }
        insert_user(&mut sorted, u);
        proof {
            done = done + 1;
            assert(fseq.subrange(0, done).drop_last() =~= fseq.subrange(0, done - 1));
            assert(fseq.subrange(0, done).last() == fseq[done - 1]);
            assert(rest2@ =~= fseq.subrange(done, fseq.len() as int));
        }
    }
    proof {
        assert(fseq.subrange(0, done) =~= fseq);
        assert(sorted@ == sort_users_spec(fseq));
    }
    // one row per user
    let ghost sseq = sorted@;
    let ghost tseq = tasks@;
    let mut out: Vec<EmployeeStats> = Vec::new();
    let mut j: usize = 0;
    let m = sorted.len();
    proof {
        assert(Seq::<EmployeeStats>::empty() =~= sseq.subrange(0, 0).map_values(
            |u: User| row_spec(u, tseq),
        ));
    }
    while j < m
        invariant
            0 <= j <= m,
            m == sseq.len(),
            sseq == sorted@,
            tseq == tasks@,
            tseq.len() <= i64::MAX,
            out@ =~= sseq.subrange(0, j as int).map_values(|u: User| row_spec(u, tseq)),
        decreases m - j,
    {
        let uid = sorted[j].id;
        let (total, completed, in_progress) = counts_for(tasks, uid);
        proof {
            lemma_counts_bounded(tseq, uid);
        }
        out.push(
            EmployeeStats {
                user_id: uid,
                full_name: sorted[j].full_name.clone(),
                total_tasks: total as i64,
                completed_tasks: completed as i64,
                in_progress_tasks: in_progress as i64,
            },
        );
        proof {
            assert(out@ =~= sseq.subrange(0, j + 1).map_values(|u: User| row_spec(u, tseq)));
        }
        j = j + 1;
    }
    proof {
        assert(sseq.subrange(0, m as int) =~= sseq);
    }
    out
}

/// Each count is at most the number of tasks.
proof fn lemma_counts_bounded(s: Seq<Task>, uid: u128)
    ensures
        0 <= count_assigned(s, uid) <= s.len(),
        0 <= count_completed(s, uid) <= s.len(),
        0 <= count_in_progress(s, uid) <= s.len(),
    decreases s.len(),
{
    if s.len() > 0 {
        lemma_counts_bounded(s.drop_last(), uid);
    }
}

} // verus!
