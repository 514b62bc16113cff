//! The one canned remote-procedure handler a supervised service exposes:
//! given a caller's name it answers with a greeting. The transport around it
//! is not this library's concern; the reply text is computed and verified
//! here.

use vstd::prelude::*;
use vstd::string::StringExecFns;

verus! {

/// Handler of the greeting operation.
pub struct MyGreeter {}

impl MyGreeter {
    /// The reply message for a request carrying `name`.
    pub fn say_hello(&self, name: &str) -> (reply: String)
        ensures
            reply@ == "Hello, "@ + name@ + "!"@,
    {
        let mut reply = String::from_str("Hello, ");
        reply.append(name);
        reply.append("!");
        reply
    }
}

impl Default for MyGreeter {
    fn default() -> (g: Self)
        ensures
            g == (MyGreeter {  }),
    {
        MyGreeter {  }
    }
}

} // verus!
