//! The native capability surface: exactly one built-in, the clock.

use vstd::prelude::*;

verus! {

use crate::errors::Error;
use crate::tokens::Object;

/// The built-in clock, callable with no arguments.
pub struct NativeClock {}

impl NativeClock {
    /// Milliseconds since a fixed epoch, as a number value; a host
    /// whose clock cannot answer yields a system error.
    pub fn call(&self) -> (r: Result<Object, Error>)
        ensures
            match r {
                Ok(v) => v matches Object::Num(_),
                Err(e) => e matches Error::SystemError { .. },
            },
    {
        match clock_millis() {
            Some(ms) => Ok(Object::Num(ms)),
            None => Err(Error::system_error("Failed to get time.")),
        }
    }

    pub fn arity(&self) -> (n: usize)
        ensures
            n == 0,
    {
        0
    }

    pub fn stringify(&self) -> (s: String)
        ensures
            s@ == "Native::Clock"@,
    {
        "Native::Clock".to_owned()
    }
}

/// Relies on std::time::SystemTime::now and duration_since: the
/// milliseconds since the Unix epoch, or nothing when the host clock
/// stands before the epoch.  Nothing can be promised of a clock
/// reading.
#[verifier::external_body]
fn clock_millis() -> (r: Option<i64>) {
    match std::time::SystemTime::now().duration_since(std::time::SystemTime::UNIX_EPOCH) {
        Ok(d) => Some(d.as_millis() as i64),
        Err(_) => None,
    }
}

} // verus!
