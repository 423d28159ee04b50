//! The `ping` command: a sign of life.

use vstd::prelude::*;

verus! {

/// The reply to `ping`.
pub fn ping() -> (text: String)
    ensures
        text@ == "pong!"@,
{
    "pong!".to_owned()
}

} // verus!
