//! The login client's pure parts: the form body sent to the gateway and
//! the classification of the gateway's response.

use vstd::prelude::*;
use vstd::string::StringExecFns;
use crate::strutil::contains_seq;
use crate::strutil::str_contains;

verus! {

/// The fixed form body of a login request: the username gets the fixed
/// domain suffix appended; the password is embedded as given.
pub open spec fn login_body(username: Seq<char>, password: Seq<char>) -> Seq<char> {
    "mode=191&username="@ + username + "%40lpu.com&password="@ + password
}

/// The marker whose presence anywhere in a gateway response body means
/// the login succeeded.
pub open spec fn success_marker() -> Seq<char> {
    "To start surfing"@
}

/// Builds the form body for a login request.
pub fn login_request_body(username: &str, password: &str) -> (r: String)
    ensures
        r@ == login_body(username@, password@),
{
    let mut b = String::from_str("mode=191&username=");
    b.append(username);
    b.append("%40lpu.com&password=");
    b.append(password);
    b
}

/// Classifies a gateway response body: success exactly when the marker
/// occurs somewhere in it, whatever credentials were sent.
pub fn login_succeeded(body: &str) -> (r: bool)
    ensures
        r == contains_seq(body@, success_marker()),
{
    str_contains(body, "To start surfing")
}

} // verus!
