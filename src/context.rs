use vstd::prelude::*;
use vstd::string::*;

verus! {

/// Per-request value threaded through the plugin chain: which route the
/// request was resolved to and the identifier generated for it at ingress.
#[derive(Debug, Clone)]
pub struct EdgeContext {
    pub route_id: String,
    pub request_id: String,
}

/// A random (version 4) UUID in its hyphenated lowercase form: 36
/// characters, hyphens at positions 8, 13, 18 and 23, lowercase hex digits
/// elsewhere, the version digit `4` at 14 and the variant digit (8, 9, a or
/// b) at 19.
pub open spec fn is_uuid_v4_text(s: Seq<char>) -> bool {
    &&& s.len() == 36
    &&& forall|i: int|
        0 <= i < 36 ==> if i == 8 || i == 13 || i == 18 || i == 23 {
            #[trigger] s[i] == '-'
        } else {
            ('0' <= s[i] && s[i] <= '9') || ('a' <= s[i] && s[i] <= 'f')
        }
    &&& s[14] == '4'
    &&& s[19] == '8' || s[19] == '9' || s[19] == 'a' || s[19] == 'b'
}

/// Relies on uuid's Uuid::new_v4 and its `Display` (the hyphenated
/// lowercase form): a random version 4 identifier.
#[verifier::external_body]
fn fresh_request_id() -> (r: String)
    ensures
        is_uuid_v4_text(r@),
{
    uuid::Uuid::new_v4().to_string()
}

impl EdgeContext {
    /// The context of a new request on `route_id`, with a freshly generated
    /// request identifier.
    pub fn new(route_id: &str) -> (r: EdgeContext)
        ensures
            r.route_id@ == route_id@,
            is_uuid_v4_text(r.request_id@),
    {
        EdgeContext { route_id: String::from_str(route_id), request_id: fresh_request_id() }
    }
}

} // verus!
