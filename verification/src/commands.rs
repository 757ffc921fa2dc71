//! Replies computed for the frontend.

use vstd::prelude::*;
use vstd::string::*;

verus! {

/// The greeting for `name`.
pub open spec fn greeting(name: Seq<char>) -> Seq<char> {
    "Hello, "@ + name + "! You've been greeted from Rust!"@
}

/// Greets the frontend's user by `name`.
pub fn greet(name: &str) -> (reply: String)
    ensures
        reply@ == greeting(name@),
{
    let mut reply = String::from_str("Hello, ");
    reply.append(name);
    reply.append("! You've been greeted from Rust!");
    reply
}

} // verus!
