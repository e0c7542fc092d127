//! How the flight registry is addressed.

use vstd::prelude::*;
use vstd::string::StringExecFns;

verus! {

/// The flight registry, reached over HTTP below a base address.
#[derive(Debug)]
pub struct ApiConnect {
    base_uri: String,
}

/// The value of the authorization header that presents `auth_token`.
pub fn authorization(auth_token: &str) -> (r: String)
    ensures
        r@ == "Token "@ + auth_token@,
{
    let mut s = String::from_str("Token ");
    s.append(auth_token);
    s
}

impl ApiConnect {
    /// The base address.
    pub closed spec fn spec_base_uri(&self) -> Seq<char> {
        self.base_uri@
    }

    /// The registry below `base_uri`.
    pub fn new(base_uri: &str) -> (r: Self)
        ensures
            r.spec_base_uri() == base_uri@,
    {
        Self { base_uri: String::from_str(base_uri) }
    }

    /// The address that answers whether a flight is known to the registry.
    pub fn check_url(&self, flight_id: &str) -> (r: String)
        ensures
            r@ == self.spec_base_uri() + "/api/v1/flights/"@ + flight_id@ + "/check"@,
    {
        let mut url = self.base_uri.clone();
        url.append("/api/v1/flights/");
        url.append(flight_id);
        url.append("/check");
        url
    }
}

} // verus!
