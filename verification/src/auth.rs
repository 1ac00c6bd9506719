//! Authentication rules: tunnel clients, panel passwords, panel requests.
use vstd::prelude::*;
use vstd::string::StringSliceAdditionalSpecFns;
use vstd::utf8::encode_utf8;

use crate::proto::message::{AuthRequest, AuthResponse};
use crate::text::{lemma_str_eq_bytes, lemma_str_empty_bytes, owned, str_chars};
use crate::validate::{all_client_id_chars, client_id_chars, byte_len};

verus! {

/// The accumulator of a constant-time comparison stays zero exactly while
/// the bytes seen so far are equal.
proof fn lemma_xor_or_zero(r: u8, x: u8, y: u8)
    ensures
        ((r | (x ^ y)) == 0) <==> (r == 0 && x == y),
{
    assert(((r | (x ^ y)) == 0) <==> (r == 0 && x == y)) by (bit_vector);
}

/// Compares two byte strings in time that depends on their length only.
pub fn constant_time_eq(a: &[u8], b: &[u8]) -> (r: bool)
    ensures
        r == (a@ == b@),
{
    if a.len() != b.len() {
        return false;
    }
    let mut result: u8 = 0;
    let mut i: usize = 0;
    while i < a.len()
        invariant
            a@.len() == b@.len(),
            i <= a@.len(),
            (result == 0) <==> (forall|j: int| 0 <= j < i ==> a@[j] == b@[j]),
        decreases a@.len() - i,
    {
        proof {
            lemma_xor_or_zero(result, a@[i as int], b@[i as int]);
        }
        result = result | (a[i] ^ b[i]);
        i = i + 1;
    }
    assert((result == 0) ==> a@ =~= b@);
    result == 0
}

/// Compares two tokens in time that depends on their length only.
pub fn constant_time_token_eq(a: &str, b: &str) -> (r: bool)
    ensures
        r == (a@ == b@),
{
    proof {
        lemma_str_eq_bytes(a, b);
    }
    constant_time_eq(a.as_bytes(), b.as_bytes())
}

/// What `bcrypt::verify` answers for a password and a stored hash: whether
/// they match, or nothing when the hash cannot be read.
pub uninterp spec fn bcrypt_verify_outcome(password: Seq<u8>, hash: Seq<char>) -> Option<bool>;

/// `bcrypt::verify`: hashes the password with the cost and salt written in
/// the stored hash and compares the results; an unreadable hash gives
/// nothing. The outcome depends on its two arguments alone.
#[verifier::external_body]
fn bcrypt_verify(password: &[u8], hash: &str) -> (r: Option<bool>)
    ensures
        r == bcrypt_verify_outcome(password@, hash@),
{
    bcrypt::verify(password, hash).ok()
}

/// A stored password that is a bcrypt hash (`$2b$` or `$2a$` in front).
pub open spec fn is_bcrypt_hash(stored: Seq<char>) -> bool {
    stored.len() >= 4 && (stored.take(4) == seq!['$', '2', 'b', '$'] || stored.take(4) == seq![
        '$',
        '2',
        'a',
        '$',
    ])
}

/// Whether the panel accepts `provided` for the stored password.
pub open spec fn password_accepted(provided: Seq<char>, stored: Seq<char>) -> bool {
    if is_bcrypt_hash(stored) {
        bcrypt_verify_outcome(encode_utf8(provided), stored) == Some(true)
    } else {
        provided == stored
    }
}

/// `bcrypt::hash` at the default cost: a `$2b$` hash of `password` with a
/// new random salt, or the error text. The salt, and so the hash, differ
/// from call to call; checking the password against the hash succeeds.
#[verifier::external_body]
fn bcrypt_hash(password: &[u8]) -> (r: Result<String, String>)
    ensures
        r matches Ok(h) ==> is_bcrypt_hash(h@) && bcrypt_verify_outcome(password@, h@) == Some(true),
{
    bcrypt::hash(password, bcrypt::DEFAULT_COST).map_err(|e| e.to_string())
}

/// Hashes a panel password for the configuration: the panel accepts the
/// password against the hash it gives.
pub fn hash_password(password: &str) -> (r: Result<String, String>)
    ensures
        r matches Ok(h) ==> password_accepted(password@, h@),
{
    bcrypt_hash(password.as_bytes())
}

/// Whether `s` starts with `$2b$` or `$2a$`.
fn looks_like_bcrypt(s: &str) -> (r: bool)
    ensures
        r == is_bcrypt_hash(s@),
{
    let cs = str_chars(s);
    if cs.len() < 4 {
        return false;
    }
    let r = cs[0] == '$' && cs[1] == '2' && (cs[2] == 'b' || cs[2] == 'a') && cs[3] == '$';
    let ghost p = s@.take(4);
    assert(r == (p =~= seq!['$', '2', 'b', '$'] || p =~= seq!['$', '2', 'a', '$']));
    r
}

/// Checks a panel password: against a bcrypt hash when the stored value is
/// one (an unreadable hash accepts nothing), else by constant-time equality.
pub fn verify_password(provided: &str, stored: &str) -> (r: bool)
    ensures
        r == password_accepted(provided@, stored@),
{
    if looks_like_bcrypt(stored) {
        match bcrypt_verify(provided.as_bytes(), stored) {
            Some(ok) => ok,
            None => false,
        }
    } else {
        proof {
            lemma_str_eq_bytes(provided, stored);
        }
        constant_time_eq(provided.as_bytes(), stored.as_bytes())
    }
}

/// A tunnel client id: 1 to 64 characters, each a letter, a digit, `-`,
/// `_` or `.`.
pub open spec fn session_client_id_ok(id: Seq<char>) -> bool {
    1 <= id.len() <= 64 && client_id_chars(id)
}

/// Checks the id a tunnel client announces.
pub fn validate_client_id(id: &str) -> (r: bool)
    ensures
        r == session_client_id_ok(id@),
{
    let count = str_chars(id).len();
    if count == 0 || count > 64 {
        return false;
    }
    all_client_id_chars(id)
}

/// The server's answer to a tunnel authentication request.
pub open spec fn auth_answer(req: AuthRequest, token: Seq<char>, version: Seq<char>) -> (
    bool,
    Seq<char>,
    Seq<char>,
) {
    if !session_client_id_ok(req.client_id@) {
        (false, "客户端 ID 格式无效"@, Seq::empty())
    } else if req.token@ != token {
        (false, "Token 验证失败"@, Seq::empty())
    } else {
        (true, "认证成功"@, version)
    }
}

/// Decides a tunnel authentication request: the client id must be well
/// formed, then the token must equal the server's (compared in constant
/// time). A refusal does not reveal the server version.
pub fn authenticate(req: &AuthRequest, server_token: &str, server_version: &str) -> (resp:
    AuthResponse)
    ensures
        (resp.success, resp.message@, resp.server_version@) == auth_answer(
            *req,
            server_token@,
            server_version@,
        ),
{
    if !validate_client_id(req.client_id.as_str()) {
        return AuthResponse {
            success: false,
            message: owned("客户端 ID 格式无效"),
            server_version: String::new(),
        };
    }
    if !constant_time_token_eq(req.token.as_str(), server_token) {
        return AuthResponse {
            success: false,
            message: owned("Token 验证失败"),
            server_version: String::new(),
        };
    }
    AuthResponse { success: true, message: owned("认证成功"), server_version: owned(server_version) }
}

} // verus!
