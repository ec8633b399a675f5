use vstd::prelude::*;
use crate::error::LoxResult;
use crate::object::Object;

verus! {

/// Relies on std::time: SystemTime::now, duration_since(UNIX_EPOCH) and
/// Duration::as_millis. Returns the wall clock as milliseconds since the
/// epoch, or `Err` when the clock reads earlier than the epoch. Nothing is
/// promised of the value: the clock may return anything.
#[verifier::external_body]
fn clock_millis() -> Result<i64, ()> {
    match std::time::SystemTime::now().duration_since(std::time::SystemTime::UNIX_EPOCH) {
        Ok(d) => Ok(d.as_millis() as i64),
        Err(_) => Err(()),
    }
}

/// The one native function the host registers: a wall-clock reader with no
/// parameters. It is the sole host capability injected into the global
/// scope.
pub struct Nativeclock;

impl Nativeclock {
    /// Read the clock: a number of milliseconds on success (any number —
    /// the clock is not promised to be monotonic or even sane), a system
    /// error when the host clock reads earlier than the epoch.
    pub fn call(&self) -> (r: Result<Object, LoxResult>)
        ensures
            match r {
                Ok(o) => o is Num,
                Err(e) => e matches LoxResult::SystemError { message } && message@
                    == "Clock return Invalid duration."@,
            },
    {
        match clock_millis() {
            Ok(ms) => Ok(Object::Num(ms)),
            Err(_) => Err(LoxResult::system_error("Clock return Invalid duration.")),
        }
    }

    pub fn arity(&self) -> (r: usize)
        ensures
            r == 0,
    {
        0
    }
}

} // verus!
