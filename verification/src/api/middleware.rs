//! Request ids: the caller's own, or a fresh one.
use vstd::prelude::*;

verus! {

broadcast use vstd::string::group_string_axioms;

/// The header that carries a request's id.
pub const REQUEST_ID_HEADER: &'static str = "x-request-id";

/// The id of a request.
#[derive(Debug, Clone)]
pub struct RequestId(pub String);

/// A lower case hexadecimal digit.
pub open spec fn is_hex_digit(c: char) -> bool {
    '0' <= c <= '9' || 'a' <= c <= 'f'
}

/// A text is a random UUID: 32 lower case hexadecimal digits in five groups with
/// hyphens between them, with the marks of its version and variant.
pub open spec fn is_random_uuid(s: Seq<char>) -> bool {
    &&& s.len() == 36
    &&& s[8] == '-' && s[13] == '-' && s[18] == '-' && s[23] == '-'
    &&& forall|i: int|
        0 <= i < 36 && i != 8 && i != 13 && i != 18 && i != 23 ==> is_hex_digit(#[trigger] s[i])
    &&& s[14] == '4'
    &&& s[19] == '8' || s[19] == '9' || s[19] == 'a' || s[19] == 'b'
}

/// `uuid::Uuid::new_v4` as text: a random UUID. Which one is left to chance.
#[verifier::external_body]
fn new_uuid() -> (r: String)
    ensures
        is_random_uuid(r@),
{
    uuid::Uuid::new_v4().to_string()
}

/// The id of a request: the caller's where it gave one that can be read and is not
/// empty, else the fresh one.
pub fn request_id_or(given: Option<&str>, fresh: String) -> (r: RequestId)
    ensures
        r.0@ == match given {
            Some(g) => if g@.len() > 0 {
                g@
            } else {
                fresh@
            },
            None => fresh@,
        },
{
    match given {
        Some(g) => {
            if g.is_empty() {
                RequestId(fresh)
            } else {
                RequestId(String::from_str(g))
            }
        },
        None => RequestId(fresh),
    }
}

/// The id of a request, given what its header holds, if it has one that can be
/// read.
pub fn request_id(given: Option<&str>) -> (r: RequestId)
    ensures
        match given {
            Some(g) => if g@.len() > 0 {
                r.0@ == g@
            } else {
                is_random_uuid(r.0@)
            },
            None => is_random_uuid(r.0@),
        },
{
    let fresh = new_uuid();
    request_id_or(given, fresh)
}

/// The part of a file name that tells a manifest being written from others.
pub fn unique_suffix() -> (r: String)
    ensures
        is_random_uuid(r@),
{
    new_uuid()
}

} // verus!
