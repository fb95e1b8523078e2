//! The console-bound writer used by the system-call layer: it remembers
//! which file descriptor its output goes to.  Moving bytes through that
//! descriptor is the embedding program's task.

use vstd::prelude::*;

verus! {

/// A writer bound to one file descriptor.
pub struct FileWriter {
    fd: usize,
}

impl FileWriter {
    /// The descriptor this writer is bound to.
    pub closed spec fn spec_fd(&self) -> usize {
        self.fd
    }

    /// Binds a writer to a file descriptor.
    pub fn new(fd: usize) -> (r: FileWriter)
        ensures
            r.spec_fd() == fd,
    {
        FileWriter { fd }
    }

    /// The descriptor, for the code that performs the write.
    pub fn fd(&self) -> (r: usize)
        ensures
            r == self.spec_fd(),
    {
        self.fd
    }
}

} // verus!
