//! Fresh identity for a registering device: a short public id and a bearer
//! credential, both drawn at random.

use vstd::prelude::*;

use rand::distr::{Alphanumeric, SampleString};
use uuid::Uuid;

verus! {

/// Length of the public device id.
pub const FRIENDLY_ID_LEN: usize = 6;

/// Length of the bearer credential.
pub const API_KEY_LEN: usize = 22;

pub open spec fn is_ascii_alphanumeric(c: char) -> bool {
    ('0' <= c && c <= '9') || ('a' <= c && c <= 'z') || ('A' <= c && c <= 'Z')
}

pub open spec fn is_lower_hex(c: char) -> bool {
    ('0' <= c && c <= '9') || ('a' <= c && c <= 'f')
}

pub open spec fn is_upper_hex(c: char) -> bool {
    ('0' <= c && c <= '9') || ('A' <= c && c <= 'F')
}

/// `c` with an ASCII lower-case letter turned upper-case.
pub open spec fn ascii_upper(c: char) -> char {
    if 'a' <= c && c <= 'z' {
        (c as u32 - 32) as char
    } else {
        c
    }
}

pub open spec fn ascii_upper_text(s: Seq<char>) -> Seq<char> {
    s.map_values(|c: char| ascii_upper(c))
}

/// Relies on rand's `Alphanumeric::sample_string` with the thread-local
/// generator: `len` characters, each drawn from `A-Z`, `a-z`, `0-9`.
#[verifier::external_body]
fn random_alphanumeric(len: usize) -> (r: String)
    ensures
        r@.len() == len,
        forall|i: int| 0 <= i < r@.len() ==> is_ascii_alphanumeric(#[trigger] r@[i]),
{
    Alphanumeric.sample_string(&mut rand::rng(), len)
}

/// Relies on uuid's `Uuid::new_v4` and the `Display` of its `simple()`
/// form: 32 lower-case hexadecimal digits.
#[verifier::external_body]
fn random_uuid_hex() -> (r: String)
    ensures
        r@.len() == 32,
        forall|i: int| 0 <= i < r@.len() ==> is_lower_hex(#[trigger] r@[i]),
{
    Uuid::new_v4().simple().to_string()
}

/// Relies on std's `str::to_ascii_uppercase`: `a` to `z` become `A` to `Z`,
/// every other character stays.
#[verifier::external_body]
fn to_ascii_uppercase(s: &str) -> (r: String)
    ensures
        r@ == ascii_upper_text(s@),
{
    s.to_ascii_uppercase()
}

/// The public id derived from a UUID's hexadecimal text: its first six
/// characters, upper-cased (all of it when it is shorter).
pub fn friendly_id_from_hex(hex: &str) -> (r: String)
    ensures
        r@ == ascii_upper_text(hex@.take(if hex@.len() < FRIENDLY_ID_LEN { hex@.len() as int } else { FRIENDLY_ID_LEN as int })),
{
    let n = hex.unicode_len();
    let k = if n < FRIENDLY_ID_LEN {
        n
    } else {
        FRIENDLY_ID_LEN
    };
    let prefix = hex.substring_char(0, k);
    assert(prefix@ =~= hex@.take(k as int));
    to_ascii_uppercase(prefix)
}

/// The identity handed to a device at registration.
#[derive(Clone, Debug)]
pub struct Credentials {
    pub friendly_id: String,
    pub api_key: String,
}

pub open spec fn well_formed_credentials(c: Credentials) -> bool {
    &&& c.friendly_id@.len() == FRIENDLY_ID_LEN
    &&& forall|i: int| 0 <= i < c.friendly_id@.len() ==> is_upper_hex(#[trigger] c.friendly_id@[i])
    &&& c.api_key@.len() == API_KEY_LEN
    &&& forall|i: int| 0 <= i < c.api_key@.len() ==> is_ascii_alphanumeric(#[trigger] c.api_key@[i])
}

/// Draws a fresh id (six upper-case hexadecimal characters of a random
/// UUID) and a fresh credential (22 random alphanumeric characters).
pub fn generate_credentials() -> (r: Credentials)
    ensures
        well_formed_credentials(r),
{
    let hex = random_uuid_hex();
    let friendly_id = friendly_id_from_hex(hex.as_str());
    proof {
        assert forall|i: int| 0 <= i < friendly_id@.len() implies is_upper_hex(#[trigger] friendly_id@[i]) by {
            assert(is_lower_hex(hex@[i]));
        }
    }
    let api_key = random_alphanumeric(API_KEY_LEN);
    Credentials { friendly_id, api_key }
}

} // verus!
