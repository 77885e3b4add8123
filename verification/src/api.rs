//! The API handler: one fixed endpoint that always answers the same
//! greeting, whatever else came with the request.

use vstd::prelude::*;

verus! {

/// The fixed greeting the API endpoint answers with.
pub open spec fn greeting() -> Seq<char> {
    "Hello from Actix API!"@
}

/// The fixed greeting, as the endpoint's body text.
pub fn hello() -> (r: &'static str)
    ensures
        r@ == greeting(),
{
    "Hello from Actix API!"
}

} // verus!
