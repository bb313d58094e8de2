//! Owned file descriptors.
use vstd::prelude::*;

verus! {

/// An owned file descriptor handle.
///
/// The handle is neither `Copy` nor `Clone`: it moves from owner to owner,
/// so it can be neither duplicated nor handed to two places at once.
#[derive(Debug)]
pub struct RawFdContainer {
    fd: i32,
}

impl RawFdContainer {
    /// The raw descriptor number held.
    pub closed spec fn spec_fd(&self) -> i32 {
        self.fd
    }

    /// Takes ownership of the raw descriptor `fd`.
    pub fn new(fd: i32) -> (r: RawFdContainer)
        ensures
            r.spec_fd() == fd,
    {
        RawFdContainer { fd }
    }

    /// Returns the raw descriptor number without giving up ownership.
    pub fn as_raw_fd(&self) -> (r: i32)
        ensures
            r == self.spec_fd(),
    {
        self.fd
    }

    /// Gives up ownership and returns the raw descriptor number.
    pub fn into_raw_fd(self) -> (r: i32)
        ensures
            r == self.spec_fd(),
    {
        self.fd
    }
}

} // verus!
