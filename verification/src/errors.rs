use vstd::prelude::*;
use vstd::string::StringExecFns;
use vstd::string::StrSliceExecFns;

verus! {

/// Relies on ToString::to_string through the value's Display impl:
/// the rendering of the value as text.
#[verifier::external_body]
fn display_text<E: core::fmt::Display>(e: E) -> (r: String) {
    e.to_string()
}

/// The result type shared by the whole library.
pub type Result<T> = core::result::Result<T, Error>;

/// A plain text error, the error type shared by the whole library.
#[derive(Clone, Debug, PartialEq, Eq, Hash)]
pub struct Error {
    pub inner: String,
}

/// Builds an error from its message text.
pub fn new(text: String) -> (r: Error)
    ensures
        r.inner@ == text@,
{
    Error { inner: text }
}

/// Conversion into the library's error from an arbitrary source value.
pub trait FromError<T>: Sized {
    fn from_err(t: T) -> Error;
}

impl Error {
    /// Wraps a displayable cause behind a context message: the result
    /// text starts with `info`, followed by the cause's text.
    pub fn warp<E: core::fmt::Display>(e: E, info: &str) -> (r: Self)
        ensures
            info@.is_prefix_of(r.inner@),
    {
        let tail: String = display_text(e);
        let mut inner: String = info.to_owned();
        inner.append(tail.as_str());
        assert(info@.is_prefix_of(info@ + tail@));
        Error { inner }
    }

    /// The message text of the error.
    pub fn error(&self) -> (r: String)
        ensures
            r@ == self.inner@,
    {
        self.inner.clone()
    }

    /// The message text of the error.
    pub fn to_string(&self) -> (r: String)
        ensures
            r@ == self.inner@,
    {
        self.inner.clone()
    }
}


} // verus!
