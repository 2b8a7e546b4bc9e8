use vstd::prelude::*;

verus! {

/// The header that carries the id of a request.
pub const HEADER_X_REQUEST_ID: &'static str = "x-request-id";

/// `c` is a digit of an upper-case hexadecimal number.
pub open spec fn is_upper_hex(c: char) -> bool {
    ('0' <= c && c <= '9') || ('A' <= c && c <= 'F')
}

/// `s` has the form of a request id: 36 characters, hyphens at the
/// positions 8, 13, 18 and 23, and upper-case hexadecimal digits elsewhere.
pub open spec fn is_request_id(s: Seq<char>) -> bool {
    &&& s.len() == 36
    &&& forall|i: int|
        0 <= i < 36 ==> if i == 8 || i == 13 || i == 18 || i == 23 {
            #[trigger] s[i] == '-'
        } else {
            is_upper_hex(s[i])
        }
}

/// A new random UUID of version 4, from `uuid::Uuid::new_v4`, in the
/// hyphenated upper-case form that `uuid::fmt::Hyphenated::encode_upper`
/// writes. Which id comes is left open; every one has that form.
#[verifier::external_body]
fn new_request_id() -> (id: String)
    ensures
        is_request_id(id@),
{
    let mut buf = [0u8; uuid::fmt::Hyphenated::LENGTH];
    uuid::Uuid::new_v4().hyphenated().encode_upper(&mut buf).to_string()
}

/// Gives an id to each request that comes without one.
#[derive(Debug, Clone, Copy, PartialEq, Eq, Structural)]
pub struct RequestIdFactory {}

impl RequestIdFactory {
    pub fn new() -> (r: Self)
        ensures
            r == (RequestIdFactory {  }),
    {
        Self {  }
    }

    /// The id for a request: none where the request brings its own, which
    /// is kept, and a new one else.
    pub fn make_request_id(&mut self, has_request_id: bool) -> (r: Option<String>)
        ensures
            match r {
                Some(id) => !has_request_id && is_request_id(id@),
                None => has_request_id,
            },
    {
        if has_request_id {
            return None;
        }
        Some(new_request_id())
    }
}

} // verus!
