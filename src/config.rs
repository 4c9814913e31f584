//! Where the server is, and who speaks to it.
use vstd::prelude::*;

verus! {

/// The server's endpoint, the credentials sent with every request, and a
/// default schema name that is not added to requests by itself.
#[derive(Clone, Debug, PartialEq)]
pub struct HarperConfig {
    pub url: String,
    pub username: String,
    pub password: String,
    pub schema: String,
}

} // verus!
