//! Password and token codec: salted one-way password hashing, opaque
//! session-token generation, verification-code generation, and case
//! folding for captcha comparison.

use vstd::prelude::*;
use vstd::string::StringExecFns;
use crate::model::Session;
use rand::RngExt;

verus! {

/// The SHA-256 digest of the UTF-8 encoding of the given characters.
/// Named only: the digest itself is computed by the outside crate.
pub uninterp spec fn sha256_chars_of(data: Seq<char>) -> Seq<u8>;

/// The result of folding a string to lower case.  Named only: the folding
/// itself is done by the standard library.
pub uninterp spec fn lower_of(s: Seq<char>) -> Seq<char>;

/// The sixteen lowercase hex digit characters, by value.
pub open spec fn hex_digit(n: int) -> char {
    seq!['0', '1', '2', '3', '4', '5', '6', '7', '8', '9', 'a', 'b', 'c', 'd', 'e', 'f'][n]
}

/// Lowercase hex encoding: two digits per byte, high nibble first.
pub open spec fn hex_of(bytes: Seq<u8>) -> Seq<char>
    decreases bytes.len(),
{
    if bytes.len() == 0 {
        Seq::empty()
    } else {
        seq![hex_digit(bytes[0] as int / 16), hex_digit(bytes[0] as int % 16)]
            + hex_of(bytes.drop_first())
    }
}

/// The stored form of a password: the email acts as salt material, and the
/// digest of email followed by password is kept as lowercase hex.
pub open spec fn passwd_hash(email: Seq<char>, passwd: Seq<char>) -> Seq<char> {
    hex_of(sha256_chars_of(email + passwd))
}

/// Relies on ring::digest::digest with SHA256: a 32-byte digest of the
/// string's UTF-8 bytes, a function of the characters alone.
#[verifier::external_body]
fn sha256_str(data: &str) -> (r: Vec<u8>)
    ensures
        r@ == sha256_chars_of(data@),
        r@.len() == 32,
{
    ring::digest::digest(&ring::digest::SHA256, data.as_bytes()).as_ref().to_vec()
}

/// Relies on data_encoding::HEXLOWER.encode: two lowercase hex digits per
/// byte, high nibble first.
#[verifier::external_body]
fn hex_lower(bytes: &[u8]) -> (r: String)
    ensures
        r@ == hex_of(bytes@),
{
    data_encoding::HEXLOWER.encode(bytes)
}

/// Hex encoding yields two characters per byte.
proof fn lemma_hex_of_len(bytes: Seq<u8>)
    ensures
        hex_of(bytes).len() == 2 * bytes.len(),
    decreases bytes.len(),
{
    if bytes.len() > 0 {
        lemma_hex_of_len(bytes.drop_first());
    }
}

/// The one-way password hash used identically for storage and for
/// verification by recomputation: 64 lowercase hex characters.
pub fn gen_passwd(email: &str, passwd: &str) -> (r: String)
    ensures
        r@ == passwd_hash(email@, passwd@),
        r@.len() == 64,
{
    let mut data = email.to_owned();
    data.append(passwd);
    let digest = sha256_str(data.as_str());
    let r = hex_lower(digest.as_slice());
    proof {
        lemma_hex_of_len(digest@);
    }
    r
}

/// Relies on nanoid::format: an id of exactly `size` characters, each
/// drawn from `alphabet`.  The draw is random, so nothing more is stated.
#[verifier::external_body]
fn nanoid_of(alphabet: &Vec<char>, size: usize) -> (r: String)
    requires
        0 < size,
        0 < alphabet@.len() <= 255,
        forall|i: int| 0 <= i < alphabet@.len() ==> (alphabet@[i] as u32) < 128,
    ensures
        r@.len() == size,
        forall|i: int| 0 <= i < r@.len() ==> alphabet@.contains(#[trigger] r@[i]),
{
    nanoid::format(nanoid::rngs::default, alphabet.as_slice(), size)
}

/// Relies on rand's random_range: a value drawn below `n`.
#[verifier::external_body]
fn rand_below(n: u64) -> (r: u64)
    requires
        0 < n,
    ensures
        r < n,
{
    rand::rng().random_range(0..n)
}

/// Relies on String::push: appends the given character to the end.
#[verifier::external_body]
pub(crate) fn push_char(s: &mut String, c: char)
    ensures
        final(s)@ == old(s)@.push(c),
{
    s.push(c);
}

/// Relies on str::to_lowercase: the result is a function of the characters
/// alone; an empty string stays empty.
#[verifier::external_body]
pub fn lowercase(s: &str) -> (r: String)
    ensures
        r@ == lower_of(s@),
        s@.len() == 0 ==> r@.len() == 0,
{
    s.to_lowercase()
}

/// Whether two strings are equal once folded to lower case, as captcha and
/// verification-code comparison is done.
pub open spec fn eq_folded(a: Seq<char>, b: Seq<char>) -> bool {
    lower_of(a) == lower_of(b)
}

/// Case-insensitive comparison by folding both sides.
pub fn matches_folded(a: &str, b: &str) -> (r: bool)
    ensures
        r == eq_folded(a@, b@),
{
    let la = lowercase(a);
    let lb = lowercase(b);
    la == lb
}

/// The length of every opaque session token.
pub const TOKEN_LEN: usize = 32;

/// A token character: a lowercase hex digit.
pub open spec fn is_token_char(c: char) -> bool {
    exists|n: int| 0 <= n < 16 && c == hex_digit(n)
}

/// A freshly generated opaque token of 32 hex characters.
pub fn gen_token() -> (r: String)
    ensures
        r@.len() == TOKEN_LEN,
        forall|i: int| 0 <= i < r@.len() ==> is_token_char(#[trigger] r@[i]),
{
    let alphabet: Vec<char> = vec![
        '1', '2', '3', '4', '5', '6', '7', '8', '9', '0', 'a', 'b', 'c', 'd', 'e', 'f',
    ];
    proof {
        assert forall|i: int| 0 <= i < alphabet@.len() implies (alphabet@[i] as u32) < 128 by {
            assert(alphabet@.len() == 16);
        }
    }
    let r = nanoid_of(&alphabet, TOKEN_LEN);
    proof {
        assert forall|i: int| 0 <= i < r@.len() implies is_token_char(r@[i]) by {
            let j = choose|j: int| 0 <= j < alphabet@.len() && alphabet@[j] == r@[i];
            if j < 9 {
                assert(r@[i] == hex_digit(j + 1));
            } else if j == 9 {
                assert(r@[i] == hex_digit(0));
            } else {
                assert(r@[i] == hex_digit(j));
            }
        }
    }
    r
}

impl Session {
    /// A fresh, not yet persisted session row for the given user and
    /// product, expiring `expire_millis` after `now`.
    pub fn token(product_id: i64, user_id: i64, now: i64, expire_millis: i64) -> (r: Session)
        requires
            0 <= expire_millis,
            now + expire_millis <= i64::MAX,
        ensures
            r.id is None,
            r.user_id == user_id,
            r.product_id == product_id,
            r.expire == now + expire_millis,
            r.token@.len() == TOKEN_LEN,
            forall|i: int| 0 <= i < r.token@.len() ==> is_token_char(#[trigger] r.token@[i]),
    {
        let token = gen_token();
        Session { id: None, token, user_id, product_id, expire: now + expire_millis }
    }
}

/// The number of digits in an emailed verification code.
pub const EMAIL_CODE_LEN: usize = 6;

/// A six-character verification code of decimal digits.
pub fn gen_email_code() -> (r: String)
    ensures
        r@.len() == EMAIL_CODE_LEN,
        forall|i: int| 0 <= i < r@.len() ==> '0' <= #[trigger] r@[i] <= '9',
{
    let mut code = String::new();
    let mut k: usize = 0;
    while k < EMAIL_CODE_LEN
        invariant
            k <= EMAIL_CODE_LEN,
            code@.len() == k,
            forall|i: int| 0 <= i < code@.len() ==> '0' <= #[trigger] code@[i] <= '9',
        decreases EMAIL_CODE_LEN - k,
    {
        let d = rand_below(9);
        let c = (48u8 + (d as u8)) as char;
        push_char(&mut code, c);
        k = k + 1;
    }
    code
}

} // verus!
