//! Signed session tokens and per-request identity.
//!
//! A token is `<payload>.<tag>`: the payload carries subject id, issue and
//! expiry instants as fixed-width hex fields, then the role's wire word, then
//! the username verbatim; the tag is an HMAC-SHA256 over the payload keyed by
//! the server secret. Verification recomputes the tag, so acceptance pins the
//! token to the canonical signed form of its claims, and an accepted claim is
//! never expired.

use vstd::prelude::*;

use crate::codec::{
    append_hex, hex_seq, hex_value, lemma_hex_canonical, lemma_hex_round_trip, lemma_hex_seq_len,
    parse_hex, pow16, str_matches_at,
};
use crate::dto::{LoginRequest, LoginResponse, UserResponse};
use crate::errors::AppError;
use crate::models::{User, UserRole, lemma_role_wire_round_trip, role_wire_spec};
use crate::password::{check_password, phc_verifies, phc_wellformed};

verus! {

/// The claims carried by a session token. `role` is the wire word; `iat` and
/// `exp` are unix seconds.
#[derive(Debug)]
pub struct Claims {
    pub sub: u128,
    pub username: String,
    pub role: String,
    pub exp: u64,
    pub iat: u64,
}

/// The identity a request acts under, as recovered from its bearer token.
#[derive(Debug)]
pub struct AuthUser {
    pub user_id: u128,
    pub username: String,
    pub role: UserRole,
}

impl AuthUser {
    pub fn is_admin(&self) -> (r: bool)
        ensures
            r == (self.role == UserRole::Admin),
    {
        self.role == UserRole::Admin
    }

    pub fn is_manager(&self) -> (r: bool)
        ensures
            r == (self.role == UserRole::Manager),
    {
        self.role == UserRole::Manager
    }
}

/// The HMAC-SHA256 tag of `payload` keyed by `secret`, in base64url form; a
/// function of the two strings alone.
pub uninterp spec fn hmac_tag(payload: Seq<char>, secret: Seq<char>) -> Seq<char>;

/// Relies on `jsonwebtoken::crypto::sign` with `Algorithm::HS256`: it returns
/// the base64url encoding of the HMAC-SHA256 tag of the message under the
/// secret. An HMAC key accepts any length, so the call cannot fail, and the
/// base64url alphabet contains no `'.'`.
#[verifier::external_body]
fn hmac_sha256_tag(payload: &str, secret: &str) -> (r: String)
    ensures
        r@ == hmac_tag(payload@, secret@),
        forall|i: int| 0 <= i < r@.len() ==> r@[i] != '.',
{
    jsonwebtoken::crypto::sign(
        payload.as_bytes(),
        &jsonwebtoken::EncodingKey::from_secret(secret.as_bytes()),
        jsonwebtoken::Algorithm::HS256,
    ).unwrap_or_default()
}

/// The canonical payload text of a claim set.
pub open spec fn payload_spec(
    sub: u128,
    username: Seq<char>,
    role: UserRole,
    iat: u64,
    exp: u64,
) -> Seq<char> {
    hex_seq(sub as nat, 32) + hex_seq(iat as nat, 16) + hex_seq(exp as nat, 16) + role_wire_spec(
        role,
    ) + username
}

/// The canonical signed token of a claim set.
pub open spec fn token_spec(
    sub: u128,
    username: Seq<char>,
    role: UserRole,
    iat: u64,
    exp: u64,
    secret: Seq<char>,
) -> Seq<char> {
    payload_spec(sub, username, role, iat, exp) + seq!['.'] + hmac_tag(
        payload_spec(sub, username, role, iat, exp),
        secret,
    )
}

/// The role word a payload tail begins with, if any. The four words start
/// with four different letters, so at most one matches.
pub open spec fn role_prefix(tail: Seq<char>) -> Option<UserRole> {
    if tail.len() >= 5 && tail.subrange(0, 5) == "admin"@ {
        Some(UserRole::Admin)
    } else if tail.len() >= 7 && tail.subrange(0, 7) == "manager"@ {
        Some(UserRole::Manager)
    } else if tail.len() >= 6 && tail.subrange(0, 6) == "tester"@ {
        Some(UserRole::Tester)
    } else if tail.len() >= 9 && tail.subrange(0, 9) == "developer"@ {
        Some(UserRole::Developer)
    } else {
        None
    }
}

/// Claims read back from a payload text, if it is well-formed.
pub open spec fn parse_payload_spec(s: Seq<char>) -> Option<(u128, Seq<char>, UserRole, u64, u64)> {
    if s.len() < 64 {
        None
    } else {
        let tail = s.skip(64);
        match (
            hex_value(s.subrange(0, 32)),
            hex_value(s.subrange(32, 48)),
            hex_value(s.subrange(48, 64)),
            role_prefix(tail),
        ) {
            (Some(sub), Some(iat), Some(exp), Some(role)) => Some(
                (
                    sub as u128,
                    tail.skip(role_wire_spec(role).len() as int),
                    role,
                    iat as u64,
                    exp as u64,
                ),
            ),
            _ => None,
        }
    }
}

/// Index of the last `'.'` of a text, if any.
pub open spec fn rfind_dot(s: Seq<char>) -> Option<int>
    decreases s.len(),
{
    if s.len() == 0 {
        None
    } else if s.last() == '.' {
        Some(s.len() - 1)
    } else {
        rfind_dot(s.drop_last())
    }
}

/// What verification of a token yields: its claims, if the text splits at its
/// last dot into a payload and exactly that payload's tag, the payload is
/// well-formed, and the expiry lies after `now`.
pub open spec fn verify_outcome(token: Seq<char>, secret: Seq<char>, now: u64) -> Option<
    (u128, Seq<char>, UserRole, u64, u64),
> {
    match rfind_dot(token) {
        None => None,
        Some(i) => {
            let payload = token.subrange(0, i);
            let sig = token.subrange(i + 1, token.len() as int);
            if sig != hmac_tag(payload, secret) {
                None
            } else {
                match parse_payload_spec(payload) {
                    None => None,
                    Some(c) => if c.4 <= now {
                        None
                    } else {
                        Some(c)
                    },
                }
            }
        },
    }
}

pub proof fn lemma_rfind_dot_some(s: Seq<char>, k: int)
    requires
        0 <= k < s.len(),
        s[k] == '.',
        forall|j: int| k < j < s.len() ==> s[j] != '.',
    ensures
        rfind_dot(s) == Some(k),
    decreases s.len(),
{
    if k < s.len() - 1 {
        assert(s.last() != '.');
        assert(forall|j: int| k < j < s.drop_last().len() ==> s.drop_last()[j] != '.');
        lemma_rfind_dot_some(s.drop_last(), k);
    }
}

pub proof fn lemma_rfind_dot_none(s: Seq<char>)
    requires
        forall|j: int| 0 <= j < s.len() ==> s[j] != '.',
    ensures
        rfind_dot(s) is None,
    decreases s.len(),
{
    if s.len() > 0 {
        lemma_rfind_dot_none(s.drop_last());
    }
}

/// What a found index means: a dot there, none after.
pub proof fn lemma_rfind_dot_props(s: Seq<char>)
    ensures
        rfind_dot(s) matches Some(k) ==> 0 <= k < s.len() && s[k] == '.' && (forall|j: int|
            k < j < s.len() ==> s[j] != '.'),
    decreases s.len(),
{
    if s.len() > 0 && s.last() != '.' {
        lemma_rfind_dot_props(s.drop_last());
        match rfind_dot(s) {
            Some(k) => {
                assert(forall|j: int| k < j < s.len() - 1 ==> s[j] == s.drop_last()[j]);
            },
            None => {},
        }
    }
}

/// A parsed payload is the canonical text of what it parsed to: the hex
/// fields are canonical spellings and the role word pins its own length.
pub proof fn lemma_parse_payload_sound(s: Seq<char>)
    ensures
        parse_payload_spec(s) matches Some(c) ==> s == payload_spec(c.0, c.1, c.2, c.3, c.4),
{
    if parse_payload_spec(s) is Some {
        let c = parse_payload_spec(s).unwrap();
        let tail = s.skip(64);
        let sub_n = hex_value(s.subrange(0, 32)).unwrap();
        let iat_n = hex_value(s.subrange(32, 48)).unwrap();
        let exp_n = hex_value(s.subrange(48, 64)).unwrap();
        let role = role_prefix(tail).unwrap();
        lemma_hex_canonical(s.subrange(0, 32), sub_n);
        lemma_hex_canonical(s.subrange(32, 48), iat_n);
        lemma_hex_canonical(s.subrange(48, 64), exp_n);
        proof_pow16_values();
        assert(sub_n < pow16(32));
        assert((sub_n as u128) as nat == sub_n);
        assert((iat_n as u64) as nat == iat_n);
        assert((exp_n as u64) as nat == exp_n);
        let wl = role_wire_spec(role).len() as int;
        assert(tail.subrange(0, wl) == role_wire_spec(role)) by {
            reveal_strlit("admin");
            reveal_strlit("manager");
            reveal_strlit("tester");
            reveal_strlit("developer");
        }
        assert(s =~= s.subrange(0, 32) + s.subrange(32, 48) + s.subrange(48, 64) + tail.subrange(
            0,
            wl,
        ) + tail.skip(wl));
        assert(s == payload_spec(c.0, c.1, c.2, c.3, c.4));
    }
}

/// Helper: the concrete lengths of the role words and powers in play.
proof fn proof_pow16_values()
    ensures
        pow16(32) == 0x1_0000_0000_0000_0000_0000_0000_0000_0000,
        pow16(16) == 0x1_0000_0000_0000_0000,
        "admin"@.len() == 5,
        "manager"@.len() == 7,
        "tester"@.len() == 6,
        "developer"@.len() == 9,
{
    assert(pow16(32) == 0x1_0000_0000_0000_0000_0000_0000_0000_0000) by {
        reveal_with_fuel(pow16, 33);
    }
    assert(pow16(16) == 0x1_0000_0000_0000_0000) by {
        reveal_with_fuel(pow16, 33);
    }
    reveal_strlit("admin");
    reveal_strlit("manager");
    reveal_strlit("tester");
    reveal_strlit("developer");
}

/// The canonical payload of any claim set parses back to exactly it.
pub proof fn lemma_parse_payload_complete(
    sub: u128,
    username: Seq<char>,
    role: UserRole,
    iat: u64,
    exp: u64,
)
    ensures
        parse_payload_spec(payload_spec(sub, username, role, iat, exp)) == Some(
            (sub, username, role, iat, exp),
        ),
{
    let s = payload_spec(sub, username, role, iat, exp);
    let w = role_wire_spec(role);
    proof_pow16_values();
    lemma_hex_seq_len(sub as nat, 32);
    lemma_hex_seq_len(iat as nat, 16);
    lemma_hex_seq_len(exp as nat, 16);
    assert(s.len() == 64 + w.len() + username.len());
    assert(s.subrange(0, 32) =~= hex_seq(sub as nat, 32));
    assert(s.subrange(32, 48) =~= hex_seq(iat as nat, 16));
    assert(s.subrange(48, 64) =~= hex_seq(exp as nat, 16));
    lemma_hex_round_trip(sub as nat, 32);
    lemma_hex_round_trip(iat as nat, 16);
    lemma_hex_round_trip(exp as nat, 16);
    let tail = s.skip(64);
    assert(tail =~= w + username);
    assert(tail.subrange(0, w.len() as int) =~= w);
    assert(tail.skip(w.len() as int) =~= username);
    reveal_strlit("admin");
    reveal_strlit("manager");
    reveal_strlit("tester");
    reveal_strlit("developer");
    match role {
        UserRole::Admin => {
            assert(tail.subrange(0, 5) == "admin"@);
        },
        UserRole::Manager => {
            assert(tail[0] == 'm');
            assert(role_prefix(tail) == Some(UserRole::Manager));
        },
        UserRole::Tester => {
            assert(tail[0] == 't');
            assert(role_prefix(tail) == Some(UserRole::Tester));
        },
        UserRole::Developer => {
            assert(tail[0] == 'd');
            assert(role_prefix(tail) == Some(UserRole::Developer));
        },
    }
}

/// Soundness of verification, the heart of tamper evidence: an accepted
/// token IS the canonical signed token of the claims it yields — its tag is
/// the payload's own tag under the server secret — and those claims are not
/// expired. Any text that is not such a canonical signed form is refused.
pub proof fn lemma_verify_sound(token: Seq<char>, secret: Seq<char>, now: u64)
    ensures
        verify_outcome(token, secret, now) matches Some(c) ==> token == token_spec(
            c.0,
            c.1,
            c.2,
            c.3,
            c.4,
            secret,
        ) && c.4 > now,
{
    if verify_outcome(token, secret, now) is Some {
        let c = verify_outcome(token, secret, now).unwrap();
        lemma_rfind_dot_props(token);
        let i = rfind_dot(token).unwrap();
        let payload = token.subrange(0, i);
        let sig = token.subrange(i + 1, token.len() as int);
        lemma_parse_payload_sound(payload);
        assert(payload == payload_spec(c.0, c.1, c.2, c.3, c.4));
        assert(token =~= payload + seq![token[i]] + sig);
        assert(seq![token[i]] =~= seq!['.']);
        assert(token == token_spec(c.0, c.1, c.2, c.3, c.4, secret));
    }
}

/// Completeness: a canonical signed token that splits at the end of its
/// payload — as every token this service issues does — and is not yet
/// expired verifies to exactly its claims.
pub proof fn lemma_verify_complete(
    sub: u128,
    username: Seq<char>,
    role: UserRole,
    iat: u64,
    exp: u64,
    secret: Seq<char>,
    now: u64,
)
    requires
        rfind_dot(token_spec(sub, username, role, iat, exp, secret)) == Some(
            payload_spec(sub, username, role, iat, exp).len() as int,
        ),
        exp > now,
    ensures
        verify_outcome(token_spec(sub, username, role, iat, exp, secret), secret, now) == Some(
            (sub, username, role, iat, exp),
        ),
{
    let p = payload_spec(sub, username, role, iat, exp);
    let t = token_spec(sub, username, role, iat, exp, secret);
    assert(t.subrange(0, p.len() as int) =~= p);
    assert(t.subrange(p.len() as int + 1, t.len() as int) =~= hmac_tag(p, secret));
    lemma_parse_payload_complete(sub, username, role, iat, exp);
}

/// An expired token is refused, even a genuinely signed one: the canonical
/// signed token of any claim set whose expiry is not after `now` verifies to
/// nothing. (The splitting hypothesis is what `create_token` ensures of
/// every token it issues.)
pub proof fn lemma_verify_rejects_expired(
    sub: u128,
    username: Seq<char>,
    role: UserRole,
    iat: u64,
    exp: u64,
    secret: Seq<char>,
    now: u64,
)
    requires
        rfind_dot(token_spec(sub, username, role, iat, exp, secret)) == Some(
            payload_spec(sub, username, role, iat, exp).len() as int,
        ),
        exp <= now,
    ensures
        verify_outcome(token_spec(sub, username, role, iat, exp, secret), secret, now) is None,
{
    let p = payload_spec(sub, username, role, iat, exp);
    let t = token_spec(sub, username, role, iat, exp, secret);
    assert(t.subrange(0, p.len() as int) =~= p);
    assert(t.subrange(p.len() as int + 1, t.len() as int) =~= hmac_tag(p, secret));
    lemma_parse_payload_complete(sub, username, role, iat, exp);
}

/// A tampered token is refused: any text without a dot, and any text whose
/// part after the last dot is not the tag of the part before it under the
/// server secret, verifies to nothing.
pub proof fn lemma_verify_rejects_bad_signature(token: Seq<char>, secret: Seq<char>, now: u64)
    ensures
        rfind_dot(token) is None ==> verify_outcome(token, secret, now) is None,
        rfind_dot(token) matches Some(i) ==> (token.subrange(i + 1, token.len() as int)
            != hmac_tag(token.subrange(0, i), secret) ==> verify_outcome(
            token,
            secret,
            now,
        ) is None),
{
}

/// Issues the signed token of a claim set: subject, username and role of the
/// user, issued now, expiring `expiration_hours` from now.
pub fn create_token(
    user_id: u128,
    username: &str,
    role: &UserRole,
    secret: &str,
    expiration_hours: i64,
    now: u64,
) -> (r: Result<String, AppError>)
    requires
        0 <= expiration_hours,
        now + expiration_hours * 3600 <= u64::MAX,
    ensures
        (r matches Ok(t) && t@ == token_spec(
            user_id,
            username@,
            *role,
            now,
            (now + expiration_hours * 3600) as u64,
            secret@,
        )),
        (r matches Ok(t) && rfind_dot(t@) == Some(
            payload_spec(
                user_id,
                username@,
                *role,
                now,
                (now + expiration_hours * 3600) as u64,
            ).len() as int,
        )),
{
    let exp: u64 = now + (expiration_hours as u64) * 3600;
    proof {
        proof_pow16_values();
    }
    let mut payload = String::new();
    append_hex(&mut payload, user_id, 32);
    append_hex(&mut payload, now as u128, 16);
    append_hex(&mut payload, exp as u128, 16);
    payload.append(role.wire_str());
    payload.append(username);
    assert(payload@ == payload_spec(user_id, username@, *role, now, exp));
    let tag = hmac_sha256_tag(payload.as_str(), secret);
    let ghost p = payload@;
    let mut token = payload;
    token.append(".");
    proof {
        reveal_strlit(".");
        assert("."@ =~= seq!['.']);
    }
    token.append(tag.as_str());
    proof {
        assert(token@ == token_spec(user_id, username@, *role, now, exp, secret@));
        assert(token@[p.len() as int] == '.');
        assert(forall|j: int|
            p.len() < j < token@.len() ==> token@[j] == tag@[j - p.len() - 1] && token@[j] != '.');
        lemma_rfind_dot_some(token@, p.len() as int);
    }
    Ok(token)
}

/// Checks a token's signature, shape and expiry against `now`, and yields
/// its claims; every failure is `Unauthorized`.
pub fn verify_token(token: &str, secret: &str, now: u64) -> (r: Result<Claims, AppError>)
    ensures
        (r is Ok <==> verify_outcome(token@, secret@, now) is Some),
        (r matches Ok(c) ==> (verify_outcome(token@, secret@, now) matches Some(out)
            && c.sub == out.0 && c.username@ == out.1 && c.role@ == role_wire_spec(out.2)
            && c.iat == out.3 && c.exp == out.4)),
        (r matches Err(e) ==> e is Unauthorized),
{
    let n = token.unicode_len();
    // locate the last dot
    let mut i: usize = 0;
    let mut dot: usize = 0;
    let mut found = false;
    while i < n
        invariant
            0 <= i <= n,
            n == token@.len(),
            found ==> dot < i && token@[dot as int] == '.' && (forall|j: int|
                dot < j < i ==> token@[j] != '.'),
            !found ==> forall|j: int| 0 <= j < i ==> token@[j] != '.',
        decreases n - i,
    {
        if token.get_char(i) == '.' {
            dot = i;
            found = true;
        }
        i = i + 1;
    }
    if !found {
        proof {
            lemma_rfind_dot_none(token@);
        }
        return Err(AppError::Unauthorized(String::from_str("Invalid token")));
    }
    proof {
        lemma_rfind_dot_some(token@, dot as int);
    }
    let payload = token.substring_char(0, dot);
    let sig = token.substring_char(dot + 1, n).to_owned();
    let tag = hmac_sha256_tag(payload, secret);
    if !(tag == sig) {
        return Err(AppError::Unauthorized(String::from_str("Invalid token")));
    }
    // signature is genuine; read the payload
    proof {
        proof_pow16_values();
    }
    let plen = payload.unicode_len();
    if plen < 64 {
        return Err(AppError::Unauthorized(String::from_str("Invalid token")));
    }
    let sub = match parse_hex(payload, 0, 32) {
        Some(v) => v,
        None => {
            return Err(AppError::Unauthorized(String::from_str("Invalid token")));
        },
    };
    let iat128 = match parse_hex(payload, 32, 16) {
        Some(v) => v,
        None => {
            return Err(AppError::Unauthorized(String::from_str("Invalid token")));
        },
    };
    let exp128 = match parse_hex(payload, 48, 16) {
        Some(v) => v,
        None => {
            return Err(AppError::Unauthorized(String::from_str("Invalid token")));
        },
    };
    proof {
        lemma_hex_canonical(payload@.subrange(32, 48), iat128 as nat);
        lemma_hex_canonical(payload@.subrange(48, 64), exp128 as nat);
        assert(payload@.subrange(32, 48).len() == 16);
        assert(payload@.subrange(48, 64).len() == 16);
    }
    let iat: u64 = iat128 as u64;
    let exp: u64 = exp128 as u64;
    let ghost tail = payload@.skip(64);
    let role: UserRole;
    let name_from: usize;
    if str_matches_at(payload, 64, "admin") {
        role = UserRole::Admin;
        name_from = 69;
    } else if str_matches_at(payload, 64, "manager") {
        role = UserRole::Manager;
        name_from = 71;
    } else if str_matches_at(payload, 64, "tester") {
        role = UserRole::Tester;
        name_from = 70;
    } else if str_matches_at(payload, 64, "developer") {
        role = UserRole::Developer;
        name_from = 73;
    } else {
        proof {
            assert(forall|k: int|
                0 <= k < tail.len() ==> tail[k] == payload@[64 + k]);
            assert(tail.len() >= 5 ==> tail.subrange(0, 5) =~= payload@.subrange(64, 69));
            assert(tail.len() >= 7 ==> tail.subrange(0, 7) =~= payload@.subrange(64, 71));
            assert(tail.len() >= 6 ==> tail.subrange(0, 6) =~= payload@.subrange(64, 70));
            assert(tail.len() >= 9 ==> tail.subrange(0, 9) =~= payload@.subrange(64, 73));
            assert(role_prefix(tail) is None);
        }
        return Err(AppError::Unauthorized(String::from_str("Invalid role in token")));
    }
    proof {
        reveal_strlit("admin");
        reveal_strlit("manager");
        reveal_strlit("tester");
        reveal_strlit("developer");
        assert(forall|k: int| 0 <= k < tail.len() ==> tail[k] == payload@[64 + k]);
        assert(tail.subrange(0, role_wire_spec(role).len() as int) =~= payload@.subrange(
            64,
            64 + role_wire_spec(role).len() as int,
        ));
        match role {
            UserRole::Admin => {},
            UserRole::Manager => {
                assert(tail.subrange(0, 7)[0] == tail[0]);
                assert("manager"@[0] == 'm');
                assert(tail[0] == 'm');
                assert(tail.len() >= 5 ==> tail.subrange(0, 5)[0] == tail[0]);
            },
            UserRole::Tester => {
                assert(tail.subrange(0, 6)[0] == tail[0]);
                assert("tester"@[0] == 't');
                assert(tail[0] == 't');
                assert(tail.len() >= 5 ==> tail.subrange(0, 5)[0] == tail[0]);
                assert(tail.len() >= 7 ==> tail.subrange(0, 7)[0] == tail[0]);
            },
            UserRole::Developer => {
                assert(tail.subrange(0, 9)[0] == tail[0]);
                assert("developer"@[0] == 'd');
                assert(tail[0] == 'd');
                assert(tail.len() >= 5 ==> tail.subrange(0, 5)[0] == tail[0]);
                assert(tail.len() >= 7 ==> tail.subrange(0, 7)[0] == tail[0]);
                assert(tail.len() >= 6 ==> tail.subrange(0, 6)[0] == tail[0]);
            },
        }
        assert(role_prefix(tail) == Some(role));
    }
    let username = payload.substring_char(name_from, plen).to_owned();
    proof {
        assert(username@ =~= tail.skip(role_wire_spec(role).len() as int));
    }
    if exp <= now {
        return Err(AppError::Unauthorized(String::from_str("Token expired")));
    }
    let role_str = String::from_str(role.wire_str());
    proof {
        assert(verify_outcome(token@, secret@, now) == Some(
            (sub, username@, role, iat, exp),
        ));
    }
    Ok(Claims { sub, username, role: role_str, exp, iat })
}

/// Whether a header value uses the bearer scheme.
pub open spec fn bearer_prefix(h: Seq<char>) -> bool {
    h.len() >= 7 && h.subrange(0, 7) == "Bearer "@
}

/// Parses a bearer-scheme `Authorization` value and verifies the token it
/// carries; a missing header, a foreign scheme, or any token failure is
/// `Unauthorized`.
pub fn extract_identity(auth_header: Option<&String>, secret: &str, now: u64) -> (r: Result<
    AuthUser,
    AppError,
>)
    ensures
        auth_header is None ==> (r matches Err(e) && e is Unauthorized),
        auth_header matches Some(h) ==> ((!bearer_prefix(h@) ==> (r matches Err(e)
            && e is Unauthorized)) && (bearer_prefix(h@) ==> ((r is Ok <==> verify_outcome(
            h@.skip(7),
            secret@,
            now,
        ) is Some) && (r matches Ok(a) ==> (verify_outcome(h@.skip(7), secret@, now) matches Some(
            out,
        ) && a.user_id == out.0 && a.username@ == out.1 && a.role == out.2)) && (r matches Err(e)
            ==> e is Unauthorized)))),
{
    match auth_header {
        None => Err(AppError::Unauthorized(String::from_str("Missing Authorization header"))),
        Some(h) => {
            let hs = h.as_str();
            let hn = hs.unicode_len();
            proof {
                reveal_strlit("Bearer ");
            }
            if !str_matches_at(hs, 0, "Bearer ") {
                return Err(AppError::Unauthorized(String::from_str(
                    "Invalid Authorization header format. Use: Bearer <token>",
                )));
            }
            let token = hs.substring_char(7, hn);
            proof {
                assert(token@ =~= h@.skip(7));
            }
            let claims = match verify_token(token, secret, now) {
                Ok(c) => c,
                Err(e) => {
                    return Err(e);
                },
            };
            let ghost out = verify_outcome(h@.skip(7), secret@, now).unwrap();
            proof {
                lemma_role_wire_round_trip(out.2);
            }
            match UserRole::from_wire(&claims.role) {
                Some(role) => Ok(
                    AuthUser { user_id: claims.sub, username: claims.username, role },
                ),
                None => Err(AppError::Unauthorized(String::from_str("Invalid role in token"))),
            }
        },
    }
}

/// Login requests must name a user and carry a password.
pub fn validate_login(req: &LoginRequest) -> (r: Result<(), AppError>)
    ensures
        r is Ok <==> (req.username@.len() >= 1 && req.password@.len() >= 1),
        r matches Err(e) ==> e is BadRequest,
{
    if req.username.as_str().is_empty() {
        Err(AppError::BadRequest(String::from_str("Username is required")))
    } else if req.password.as_str().is_empty() {
        Err(AppError::BadRequest(String::from_str("Password is required")))
    } else {
        Ok(())
    }
}

/// Verifies credentials against a looked-up account and issues a session.
///
/// An absent account, an inactive one, and a wrong password all fail with
/// the same `Unauthorized` shape; a stored hash that does not parse is an
/// internal fault. On success the caller gets the canonical signed token of
/// the account's claims and the public projection of the record.
pub fn authenticate(
    user_row: Option<User>,
    password: &String,
    secret: &str,
    expiration_hours: i64,
    now: u64,
) -> (r: Result<LoginResponse, AppError>)
    requires
        0 <= expiration_hours,
        now + expiration_hours * 3600 <= u64::MAX,
    ensures
        user_row is None ==> (r matches Err(e) && e is Unauthorized),
        user_row matches Some(u) ==> ((!u.is_active ==> (r matches Err(e) && e is Unauthorized))
            && ((u.is_active && !phc_wellformed(u.password_hash@)) ==> (r matches Err(e)
            && e is Internal)) && ((u.is_active && phc_wellformed(u.password_hash@)
            && !phc_verifies(password@, u.password_hash@)) ==> (r matches Err(e)
            && e is Unauthorized)) && ((u.is_active && phc_wellformed(u.password_hash@)
            && phc_verifies(password@, u.password_hash@)) ==> (r matches Ok(resp)
            && resp.token@ == token_spec(
            u.id,
            u.username@,
            u.role,
            now,
            (now + expiration_hours * 3600) as u64,
            secret@,
        ) && resp.token_type@ == "Bearer"@ && resp.user.id == u.id
            && resp.user.username@ == u.username@ && resp.user.email@ == u.email@
            && resp.user.full_name@ == u.full_name@ && resp.user.role == u.role
            && resp.user.is_active == u.is_active && resp.user.created_at == u.created_at
            && resp.user.updated_at == u.updated_at))),
{
    match user_row {
        None => Err(AppError::Unauthorized(String::from_str("Invalid username or password"))),
        Some(u) => {
            if !u.is_active {
                return Err(AppError::Unauthorized(String::from_str("Account is deactivated")));
            }
            match check_password(password.as_str(), u.password_hash.as_str()) {
                Err(_) => Err(AppError::Internal(String::from_str("Password hash error"))),
                Ok(false) => Err(
                    AppError::Unauthorized(String::from_str("Invalid username or password")),
                ),
                Ok(true) => {
                    let token = match create_token(
                        u.id,
                        u.username.as_str(),
                        &u.role,
                        secret,
                        expiration_hours,
                        now,
                    ) {
                        Ok(t) => t,
                        Err(e) => {
                            return Err(e);
                        },
                    };
                    Ok(
                        LoginResponse {
                            token,
                            token_type: String::from_str("Bearer"),
                            user: UserResponse {
                                id: u.id,
                                username: u.username,
                                email: u.email,
                                full_name: u.full_name,
                                role: u.role,
                                is_active: u.is_active,
                                created_at: u.created_at,
                                updated_at: u.updated_at,
                            },
                        },
                    )
                },
            }
        },
    }
}

} // verus!
