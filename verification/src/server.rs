//! The plain byte-stream backup server: one connection delivers one file
//! record, written under the backup directory. The listener, the threads
//! and the disk writes live outside the library; the server's identity —
//! which port to listen on and where to put the files — is held here.

use vstd::prelude::*;

verus! {

/// Identity of one plain backup server.
pub struct Server {
    port: String,
    backer_dir: String,
}

impl Server {
    /// The port the server listens on.
    pub closed spec fn spec_port(&self) -> Seq<char> {
        self.port@
    }

    /// The directory received files are written under.
    pub closed spec fn spec_backer_dir(&self) -> Seq<char> {
        self.backer_dir@
    }

    /// A server that will listen on `port` and keep files under
    /// `backup_dir`.
    pub fn new(port: String, backup_dir: String) -> (r: Self)
        ensures
            r.spec_port() == port@,
            r.spec_backer_dir() == backup_dir@,
    {
        Self { port, backer_dir: backup_dir }
    }

    /// The port, for the listener outside the library.
    pub fn port(&self) -> (r: &String)
        ensures
            r@ == self.spec_port(),
    {
        &self.port
    }

    /// The backup directory, for the writer outside the library.
    pub fn backer_dir(&self) -> (r: &String)
        ensures
            r@ == self.spec_backer_dir(),
    {
        &self.backer_dir
    }
}

} // verus!
