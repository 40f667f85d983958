use vstd::prelude::*;
use sha2::{Digest, Sha256};
use uuid::Uuid;
use crate::relay::{AuthenticatedUser, ChatError};

verus! {

/// A stored session: whose it is, its token, and when it expires (seconds).
pub struct SessionRow {
    pub user_id: i64,
    pub username: String,
    pub token: String,
    pub expires_at: i64,
}

/// `row` authenticates `token` at time `now`: same token, expiry strictly
/// in the future.
pub open spec fn is_live(row: SessionRow, token: Seq<char>, now: i64) -> bool {
    row.token@ == token && row.expires_at > now
}

/// Looks `token` up among the stored sessions at time `now`. The identity of
/// the first live session with that token, or nothing: an unknown or expired
/// token is no error.
pub fn validate_session(rows: &Vec<SessionRow>, token: &str, now: i64) -> (r: Option<AuthenticatedUser>)
    ensures
        match r {
            None => forall|i: int| 0 <= i < rows@.len() ==> !is_live(#[trigger] rows@[i], token@, now),
            Some(u) => exists|i: int| {
                &&& 0 <= i < rows@.len()
                &&& is_live(#[trigger] rows@[i], token@, now)
                &&& forall|k: int| 0 <= k < i ==> !is_live(#[trigger] rows@[k], token@, now)
                &&& u.user_id == rows@[i].user_id
                &&& u.username@ == rows@[i].username@
            },
        },
{
    let wanted = String::from_str(token);
    let mut i: usize = 0;
    while i < rows.len()
        invariant
            wanted@ == token@,
            i <= rows@.len(),
            forall|k: int| 0 <= k < i ==> !is_live(#[trigger] rows@[k], token@, now),
        decreases rows.len() - i,
    {
        let row = &rows[i];
        if row.token == wanted && row.expires_at > now {
            assert(is_live(rows@[i as int], token@, now));
            return Some(AuthenticatedUser { user_id: row.user_id, username: row.username.clone() });
        }
        i = i + 1;
    }
    None
}

/// The stored form of a password: its SHA-256 digest in lower-case hex.
pub uninterp spec fn sha256_hex(password: Seq<char>) -> Seq<char>;

/// Relies on sha2's `Sha256::digest` over the password's UTF-8 bytes,
/// printed with `{:x}` (lower-case hex). The digest depends on the text
/// alone.
#[verifier::external_body]
fn digest_hex(password: &str) -> (r: String)
    ensures
        r@ == sha256_hex(password@),
{
    format!("{:x}", Sha256::digest(password.as_bytes()))
}

/// The hyphenated lower-case text form of a UUID: 36 characters, `-` at
/// positions 8, 13, 18 and 23, hex digits `0-9a-f` elsewhere.
pub open spec fn is_uuid_text(s: Seq<char>) -> bool {
    &&& s.len() == 36
    &&& forall|i: int| 0 <= i < 36 ==> if i == 8 || i == 13 || i == 18 || i == 23 {
        #[trigger] s[i] == '-'
    } else {
        ('0' <= s[i] && s[i] <= '9') || ('a' <= s[i] && s[i] <= 'f')
    }
}

/// Relies on uuid's `Uuid::new_v4` and its `Display` form, which is the
/// hyphenated lower-case hex text: a fresh random token of that shape.
#[verifier::external_body]
fn random_token() -> (r: String)
    ensures
        is_uuid_text(r@),
{
    Uuid::new_v4().to_string()
}

/// The form in which a password is stored.
pub fn password_hash(password: &str) -> (r: String)
    ensures
        r@ == sha256_hex(password@),
{
    digest_hex(password)
}

/// Whether a stored hash is the hash that was computed for a login.
pub fn hash_matches(stored: &String, computed: &String) -> (r: bool)
    ensures
        r == (stored@ == computed@),
{
    *stored == *computed
}

/// Whether `password` is the one whose hash was stored.
pub fn credentials_match(stored: &String, password: &str) -> (r: bool)
    ensures
        r == (stored@ == sha256_hex(password@)),
{
    let computed = password_hash(password);
    hash_matches(stored, &computed)
}

/// What a sign-in attempt leads to.
#[derive(Clone, Copy, Debug, PartialEq, Eq, Structural)]
pub enum LoginDecision {
    /// The password matches the stored hash: open a session.
    StartSession,
    /// No such user: create one with this password, then sign in.
    Register,
    /// The password does not match.
    Refuse,
    /// The user could not be looked up.
    StoreFailed,
}

/// Decides a sign-in from the lookup of the user's stored hash.
pub fn decide_login(stored: &Result<Option<String>, ChatError>, password: &str) -> (r: LoginDecision)
    ensures
        match stored {
            Err(_) => r == LoginDecision::StoreFailed,
            Ok(None) => r == LoginDecision::Register,
            Ok(Some(h)) => r == if h@ == sha256_hex(password@) {
                LoginDecision::StartSession
            } else {
                LoginDecision::Refuse
            },
        },
{
    match stored {
        Err(_) => LoginDecision::StoreFailed,
        Ok(None) => LoginDecision::Register,
        Ok(Some(h)) => if credentials_match(h, password) {
            LoginDecision::StartSession
        } else {
            LoginDecision::Refuse
        },
    }
}

/// The name of the cookie that carries a session token.
pub open spec fn cookie_name() -> Seq<char> {
    seq!['s', 'e', 's', 's', 'i', 'o', 'n', '_', 't', 'o', 'k', 'e', 'n', '=']
}

/// The cookie attributes that go with a new session.
pub open spec fn cookie_attributes() -> Seq<char> {
    seq![';', ' ', 'H', 't', 't', 'p', 'O', 'n', 'l', 'y', ';', ' ', 'P', 'a', 't', 'h', '=', '/']
}

/// The `Set-Cookie` value that hands `token` to the browser.
pub fn session_cookie(token: &str) -> (r: String)
    ensures
        r@ == cookie_name() + token@ + cookie_attributes(),
{
    let mut r = String::from_str("session_token=");
    r.append(token);
    r.append("; HttpOnly; Path=/");
    proof {
        reveal_strlit("session_token=");
        reveal_strlit("; HttpOnly; Path=/");
        assert(r@ =~= cookie_name() + token@ + cookie_attributes());
    }
    r
}

/// A freshly issued session: its token and the cookie that carries it.
pub struct SessionGrant {
    pub token: String,
    pub cookie: String,
}

/// Draws a new random session token and the cookie for it.
pub fn issue_session() -> (r: SessionGrant)
    ensures
        is_uuid_text(r.token@),
        r.cookie@ == cookie_name() + r.token@ + cookie_attributes(),
{
    let token = random_token();
    let cookie = session_cookie(token.as_str());
    SessionGrant { token, cookie }
}

} // verus!
