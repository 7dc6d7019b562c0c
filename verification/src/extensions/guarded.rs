//! Write-guarded values and the tokens that open them.

use vstd::prelude::*;

verus! {

/// Proof that the executor granted a plugin write access to a guarded
/// slot. Plugins receive tokens; they do not mint them.
#[derive(Debug)]
pub struct WriteToken {
    granted: bool,
}

impl WriteToken {
    /// Mint a token. The executor does this for plugins that declared
    /// the matching write capability.
    pub fn new() -> (t: WriteToken) {
        WriteToken { granted: true }
    }
}

/// A value that can be read freely but written only with a
/// [`WriteToken`].
#[derive(Debug)]
pub struct Guarded<T> {
    inner: T,
}

impl<T> Guarded<T> {
    /// Wrap a value.
    pub fn new(value: T) -> (g: Guarded<T>)
        ensures
            g.value() == value,
    {
        Guarded { inner: value }
    }

    /// The guarded value.
    pub closed spec fn value(&self) -> T {
        self.inner
    }

    /// Read the value.
    pub fn read(&self) -> (r: &T)
        ensures
            *r == self.value(),
    {
        &self.inner
    }

    /// Write access to the value, for a holder of a token.
    pub fn write(&mut self, token: &WriteToken) -> (r: &mut T)
        ensures
            *r == old(self).value(),
            final(self).value() == *final(r),
    {
        &mut self.inner
    }

    /// Unwrap the value.
    pub fn into_inner(self) -> (v: T)
        ensures
            v == self.value(),
    {
        self.inner
    }
}

} // verus!
