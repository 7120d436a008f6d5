//! The library's error type: a message for the user.
use vstd::prelude::*;

verus! {

/// An error with the message shown to the user.
#[derive(Debug)]
pub struct LauncherError(pub String);

impl LauncherError {
    pub fn new(message: String) -> (e: Self)
        ensures
            e.0@ == message@,
    {
        LauncherError(message)
    }

    /// The message, as `Display` prints it.
    pub fn message(&self) -> (m: &str)
        ensures
            m@ == self.0@,
    {
        self.0.as_str()
    }
}

pub type LauncherResult<T> = Result<T, LauncherError>;

/// A result with its error taken by its message.
pub open spec fn rv<T>(r: LauncherResult<T>) -> Result<T, Seq<char>> {
    match r {
        Ok(v) => Ok(v),
        Err(e) => Err(e.0@),
    }
}

/// A string result taken by views.
pub open spec fn rsv(r: LauncherResult<String>) -> Result<Seq<char>, Seq<char>> {
    match r {
        Ok(v) => Ok(v@),
        Err(e) => Err(e.0@),
    }
}

/// An error whose message is `a` followed by `b`.
pub fn error_with(a: &str, b: &str) -> (e: LauncherError)
    ensures
        e.0@ == a@ + b@,
{
    let mut m = String::from_str(a);
    m.append(b);
    LauncherError(m)
}

/// An error whose message is `a`, `b`, `c` in turn.
pub fn error_with3(a: &str, b: &str, c: &str) -> (e: LauncherError)
    ensures
        e.0@ == a@ + b@ + c@,
{
    let mut m = String::from_str(a);
    m.append(b);
    m.append(c);
    LauncherError(m)
}

} // verus!
