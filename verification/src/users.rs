//! User account management: admin-only gatekeeping, request validation,
//! record construction with password hashing, partial updates, and the
//! self-delete guard.

use vstd::prelude::*;

use crate::auth::AuthUser;
use crate::dto::{CreateUserRequest, PaginationParams, UpdateUserRequest, UserResponse};
use crate::errors::AppError;
use crate::models::User;
use crate::password::{hash_password, phc_verifies, phc_wellformed};
use crate::policy::{may_delete_user, may_manage_users};
use crate::tasks::{clamp_pagination, clamped_page, clamped_per_page};

verus! {

/// Whether the `validator` crate's HTML5-style email check accepts `s`; a
/// function of the string alone.
pub uninterp spec fn email_accepted(s: Seq<char>) -> bool;

/// Relies on `validator::ValidateEmail::validate_email` for `&str`, a
/// deterministic predicate on the string (regex plus IDN domain handling).
#[verifier::external_body]
fn email_valid(s: &str) -> (r: bool)
    ensures
        r == email_accepted(s@),
{
    validator::ValidateEmail::validate_email(&s)
}

/// The public projection of a stored user: everything but the password
/// hash, which never leaves the service.
pub fn user_to_response(u: User) -> (r: UserResponse)
    ensures
        r.id == u.id,
        r.username == u.username,
        r.email == u.email,
        r.full_name == u.full_name,
        r.role == u.role,
        r.is_active == u.is_active,
        r.created_at == u.created_at,
        r.updated_at == u.updated_at,
{
    UserResponse {
        id: u.id,
        username: u.username,
        email: u.email,
        full_name: u.full_name,
        role: u.role,
        is_active: u.is_active,
        created_at: u.created_at,
        updated_at: u.updated_at,
    }
}

/// Only administrators pass; everyone else is Forbidden.
pub fn require_admin(auth: &AuthUser) -> (r: Result<(), AppError>)
    ensures
        r is Ok <==> may_manage_users(auth.role),
        r matches Err(e) ==> e is Forbidden,
{
    if !auth.is_admin() {
        return Err(AppError::Forbidden(String::from_str("Only administrators can manage users")));
    }
    Ok(())
}

/// The constraints a creation request must meet: username of 3 to 50
/// characters, a well-formed email, a password of at least 6 characters, a
/// full name of 1 to 100.
pub open spec fn create_user_valid(req: CreateUserRequest) -> bool {
    &&& 3 <= req.username@.len() <= 50
    &&& email_accepted(req.email@)
    &&& req.password@.len() >= 6
    &&& 1 <= req.full_name@.len() <= 100
}

/// Checks a creation request's fields.
pub fn validate_create_user(req: &CreateUserRequest) -> (r: Result<(), AppError>)
    ensures
        r is Ok <==> create_user_valid(*req),
        r matches Err(e) ==> e is BadRequest,
{
    let un = req.username.as_str().unicode_len();
    if un < 3 || un > 50 {
        return Err(AppError::BadRequest(String::from_str("Username must be 3-50 characters")));
    }
    if !email_valid(req.email.as_str()) {
        return Err(AppError::BadRequest(String::from_str("Invalid email format")));
    }
    if req.password.as_str().unicode_len() < 6 {
        return Err(
            AppError::BadRequest(String::from_str("Password must be at least 6 characters")),
        );
    }
    let fn_len = req.full_name.as_str().unicode_len();
    if fn_len < 1 || fn_len > 100 {
        return Err(AppError::BadRequest(String::from_str("Full name is required")));
    }
    Ok(())
}

/// Admission of a creation: the caller must be an administrator, the fields
/// valid, and the unique fields free.
pub fn create_user_checked(auth: &AuthUser, req: &CreateUserRequest, duplicate_exists: bool) -> (r:
    Result<(), AppError>)
    ensures
        !may_manage_users(auth.role) ==> (r matches Err(e) && e is Forbidden),
        (may_manage_users(auth.role) && !create_user_valid(*req)) ==> (r matches Err(e)
            && e is BadRequest),
        (may_manage_users(auth.role) && create_user_valid(*req) && duplicate_exists) ==> (
        r matches Err(e) && e is Conflict),
        (may_manage_users(auth.role) && create_user_valid(*req) && !duplicate_exists) ==> r is Ok,
{
    require_admin(auth)?;
    validate_create_user(req)?;
    if duplicate_exists {
        return Err(AppError::Conflict(String::from_str("Username or email already exists")));
    }
    Ok(())
}

/// Builds the record of a new account: the password is hashed with a fresh
/// salt (so the produced hash verifies against the given password), the
/// account starts active, and both instants are `now`. A hashing failure is
/// an internal fault.
pub fn new_user_record(req: CreateUserRequest, id: u128, now: i64) -> (r: Result<User, AppError>)
    ensures
        r matches Ok(u) ==> (u.id == id && u.username == req.username && u.email == req.email
            && u.full_name == req.full_name && u.role == req.role && u.is_active == true
            && u.created_at == now && u.updated_at == now && phc_wellformed(u.password_hash@)
            && phc_verifies(req.password@, u.password_hash@)),
        r matches Err(e) ==> e is Internal,
{
    let hash = match hash_password(req.password.as_str()) {
        Some(h) => h,
        None => {
            return Err(AppError::Internal(String::from_str("Password hash error")));
        },
    };
    Ok(
        User {
            id,
            username: req.username,
            email: req.email,
            password_hash: hash,
            full_name: req.full_name,
            role: req.role,
            is_active: true,
            created_at: now,
            updated_at: now,
        },
    )
}

/// The constraints an update request must meet on the fields it carries.
pub open spec fn update_user_valid(upd: UpdateUserRequest) -> bool {
    &&& (match upd.username {
        Some(s) => 3 <= s@.len() <= 50,
        None => true,
    })
    &&& (match upd.email {
        Some(s) => email_accepted(s@),
        None => true,
    })
    &&& (match upd.password {
        Some(s) => s@.len() >= 6,
        None => true,
    })
    &&& (match upd.full_name {
        Some(s) => 1 <= s@.len() <= 100,
        None => true,
    })
}

/// Checks an update request's present fields.
pub fn validate_update_user(upd: &UpdateUserRequest) -> (r: Result<(), AppError>)
    ensures
        r is Ok <==> update_user_valid(*upd),
        r matches Err(e) ==> e is BadRequest,
{
    match &upd.username {
        Some(s) => {
            let n = s.as_str().unicode_len();
            if n < 3 || n > 50 {
                return Err(
                    AppError::BadRequest(String::from_str("Username must be 3-50 characters")),
                );
            }
        },
        None => {},
    }
    match &upd.email {
        Some(s) => {
            if !email_valid(s.as_str()) {
                return Err(AppError::BadRequest(String::from_str("Invalid email format")));
            }
        },
        None => {},
    }
    match &upd.password {
        Some(s) => {
            if s.as_str().unicode_len() < 6 {
                return Err(
                    AppError::BadRequest(
                        String::from_str("Password must be at least 6 characters"),
                    ),
                );
            }
        },
        None => {},
    }
    match &upd.full_name {
        Some(s) => {
            let n = s.as_str().unicode_len();
            if n < 1 || n > 100 {
                return Err(AppError::BadRequest(String::from_str("Full name is required")));
            }
        },
        None => {},
    }
    Ok(())
}

/// Merges an update into a stored account: present fields replace, absent
/// fields are kept; a given password is re-hashed with a fresh salt; the
/// identifier and creation instant never change and `updated_at` becomes
/// `now`.
pub fn apply_user_update(existing: User, upd: UpdateUserRequest, now: i64) -> (r: Result<
    User,
    AppError,
>)
    ensures
        upd.password is None ==> r is Ok,
        r matches Err(e) ==> e is Internal,
        r matches Ok(u) ==> (u.id == existing.id && u.created_at == existing.created_at
            && u.updated_at == now && u.username == (match upd.username {
            Some(s) => s,
            None => existing.username,
        }) && u.email == (match upd.email {
            Some(s) => s,
            None => existing.email,
        }) && u.full_name == (match upd.full_name {
            Some(s) => s,
            None => existing.full_name,
        }) && u.role == (match upd.role {
            Some(x) => x,
            None => existing.role,
        }) && u.is_active == (match upd.is_active {
            Some(b) => b,
            None => existing.is_active,
        }) && (match upd.password {
            Some(p) => phc_wellformed(u.password_hash@) && phc_verifies(p@, u.password_hash@),
            None => u.password_hash == existing.password_hash,
        })),
{
    let password_hash = match upd.password {
        Some(p) => {
            match hash_password(p.as_str()) {
                Some(h) => h,
                None => {
                    return Err(AppError::Internal(String::from_str("Password hash error")));
                },
            }
        },
        None => existing.password_hash,
    };
    Ok(
        User {
            id: existing.id,
            username: match upd.username {
                Some(s) => s,
                None => existing.username,
            },
            email: match upd.email {
                Some(s) => s,
                None => existing.email,
            },
            password_hash,
            full_name: match upd.full_name {
                Some(s) => s,
                None => existing.full_name,
            },
            role: match upd.role {
                Some(x) => x,
                None => existing.role,
            },
            is_active: match upd.is_active {
                Some(b) => b,
                None => existing.is_active,
            },
            created_at: existing.created_at,
            updated_at: now,
        },
    )
}

/// The self-delete guard and the admin gate: only an administrator deletes
/// accounts, and nobody — administrators included — deletes their own.
pub fn delete_user_check(auth: &AuthUser, target_id: u128) -> (r: Result<(), AppError>)
    ensures
        r is Ok <==> may_delete_user(auth.role, auth.user_id, target_id),
        !may_manage_users(auth.role) ==> (r matches Err(e) && e is Forbidden),
        (may_manage_users(auth.role) && target_id == auth.user_id) ==> (r matches Err(e)
            && e is BadRequest),
{
    require_admin(auth)?;
    if target_id == auth.user_id {
        return Err(AppError::BadRequest(String::from_str("Cannot delete your own account")));
    }
    Ok(())
}

/// Listing order of accounts: newest creation first, ties broken by id.
pub open spec fn user_listing_le(a: User, b: User) -> bool {
    a.created_at > b.created_at || (a.created_at == b.created_at && a.id <= b.id)
}

/// Insertion into an ordered sequence, before the first element it precedes.
pub open spec fn insert_listing_spec(x: User, s: Seq<User>) -> Seq<User>
    decreases s.len(),
{
    if s.len() == 0 {
        seq![x]
    } else if user_listing_le(x, s[0]) {
        seq![x] + s
    } else {
        seq![s[0]] + insert_listing_spec(x, s.drop_first())
    }
}

/// Insertion sort of accounts under the listing order.
pub open spec fn sort_listing_spec(s: Seq<User>) -> Seq<User>
    decreases s.len(),
{
    if s.len() == 0 {
        Seq::<User>::empty()
    } else {
        insert_listing_spec(s.last(), sort_listing_spec(s.drop_last()))
    }
}

/// The public projection of one account.
pub open spec fn response_spec(u: User) -> UserResponse {
    UserResponse {
        id: u.id,
        username: u.username,
        email: u.email,
        full_name: u.full_name,
        role: u.role,
        is_active: u.is_active,
        created_at: u.created_at,
        updated_at: u.updated_at,
    }
}

/// Exact contract of the account listing: order newest-first, take the page,
/// project every record.
pub open spec fn list_users_spec(users: Seq<User>, p: PaginationParams) -> Seq<UserResponse> {
    let sorted = sort_listing_spec(users);
    let len = sorted.len() as int;
    let start = (clamped_page(p.page) - 1) * clamped_per_page(p.per_page);
    let lo = if start > len {
        len
    } else {
        start
    };
    let hi = if start + clamped_per_page(p.per_page) > len {
        len
    } else {
        start + clamped_per_page(p.per_page)
    };
    sorted.subrange(lo, hi).map_values(|u: User| response_spec(u))
}

fn user_listing_le_exec(a: &User, b: &User) -> (r: bool)
    ensures
        r == user_listing_le(*a, *b),
{
    a.created_at > b.created_at || (a.created_at == b.created_at && a.id <= b.id)
}

/// Where `insert_listing_spec` puts the new element.
proof fn lemma_insert_listing_at(x: User, s: Seq<User>, i: int)
    requires
        0 <= i <= s.len(),
        forall|j: int| 0 <= j < i ==> !user_listing_le(x, s[j]),
        i < s.len() ==> user_listing_le(x, s[i]),
    ensures
        insert_listing_spec(x, s) == s.insert(i, x),
    decreases i,
{
    if i == 0 {
        if s.len() == 0 {
            assert(insert_listing_spec(x, s) =~= s.insert(0, x));
        } else {
            assert(seq![x] + s =~= s.insert(0, x));
        }
    } else {
        assert(!user_listing_le(x, s[0]));
        lemma_insert_listing_at(x, s.drop_first(), i - 1);
        assert(seq![s[0]] + s.drop_first().insert(i - 1, x) =~= s.insert(i, x));
    }
}

fn insert_listing(v: &mut Vec<User>, x: User)
    ensures
        final(v)@ == insert_listing_spec(x, old(v)@),
{
    let mut idx: usize = 0;
    while idx < v.len() && !user_listing_le_exec(&x, &v[idx])
        invariant
            0 <= idx <= v@.len(),
            v@ == old(v)@,
            forall|j: int| 0 <= j < idx ==> !user_listing_le(x, v@[j]),
        decreases v@.len() - idx,
    {
        idx = idx + 1;
    }
    proof {
        lemma_insert_listing_at(x, v@, idx as int);
    }
    v.insert(idx, x);
}

/// Orders and pages a snapshot of the account store, projecting each record.
pub fn list_users(users: Vec<User>, params: &PaginationParams) -> (r: Vec<UserResponse>)
    ensures
        r@ == list_users_spec(users@, *params),
{
    let ghost orig = users@;
    let mut rest = users;
    let mut sorted: Vec<User> = Vec::new();
    let ghost mut done: int = 0;
    while rest.len() > 0
        invariant
            0 <= done <= orig.len(),
            rest@ =~= orig.subrange(done, orig.len() as int),
            sorted@ == sort_listing_spec(orig.subrange(0, done)),
        decreases rest@.len(),
    {
        let ghost before = rest@;
        let u = rest.remove(0);
        proof {
            assert(before.drop_first() =~= rest@);
            assert(u == orig[done]);
        }
        insert_listing(&mut sorted, u);
        proof {
            done = done + 1;
            assert(orig.subrange(0, done).drop_last() =~= orig.subrange(0, done - 1));
            assert(orig.subrange(0, done).last() == orig[done - 1]);
            assert(rest@ =~= orig.subrange(done, orig.len() as int));
        }
    }
    proof {
        assert(orig.subrange(0, done) =~= orig);
        assert(sorted@ == sort_listing_spec(orig));
    }
    let (page, per_page) = clamp_pagination(params.page, params.per_page);
    let len = sorted.len();
    let pm1: i128 = page as i128 - 1;
    proof {
        assert(0 <= pm1 * (per_page as i128) <= 0x8000_0000_0000_0000_0000 * 100)
            by (nonlinear_arith)
            requires
                0 <= pm1 <= 0x8000_0000_0000_0000_0000,
                1 <= per_page <= 100,
        {
        }
    }
    let start_wide: i128 = pm1 * (per_page as i128);
    let lo: usize = if start_wide > len as i128 {
        len
    } else {
        start_wide as usize
    };
    let hi: usize = if start_wide + per_page as i128 > len as i128 {
        len
    } else {
        (start_wide + per_page as i128) as usize
    };
    let ghost win = list_users_spec(orig, *params);
    let mut out: Vec<UserResponse> = Vec::new();
    let mut j: usize = lo;
    proof {
        assert(win =~= sorted@.subrange(lo as int, hi as int).map_values(
            |u: User| response_spec(u),
        ));
    }
    while j < hi
        invariant
            lo <= j <= hi,
            hi <= sorted@.len(),
            win =~= sorted@.subrange(lo as int, hi as int).map_values(|u: User| response_spec(u)),
            out@ =~= sorted@.subrange(lo as int, j as int).map_values(|u: User| response_spec(u)),
        decreases hi - j,
    {
        let u = &sorted[j];
        out.push(
            UserResponse {
                id: u.id,
                username: u.username.clone(),
                email: u.email.clone(),
                full_name: u.full_name.clone(),
                role: u.role,
                is_active: u.is_active,
                created_at: u.created_at,
                updated_at: u.updated_at,
            },
        );
        proof {
            assert(out@ =~= sorted@.subrange(lo as int, j + 1).map_values(
                |u: User| response_spec(u),
            ));
        }
        j = j + 1;
    }
    out
}

/// Outcome of the storage deletion: zero rows affected means the account
/// was absent.
pub fn delete_user_outcome(rows_affected: u64) -> (r: Result<(), AppError>)
    ensures
        r is Ok <==> rows_affected > 0,
        r matches Err(e) ==> e is NotFound,
{
    if rows_affected == 0 {
        return Err(AppError::NotFound(String::from_str("User not found")));
    }
    Ok(())
}

} // verus!
