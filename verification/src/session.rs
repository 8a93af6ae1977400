//! One supervised terminal-sharing session: exclusive ownership of the
//! spawned process, the handle of its reader task, and the immutable
//! metadata shown in listings.

use vstd::prelude::*;

verus! {

#[verifier::external_type_specification]
#[verifier::external_body]
pub struct ExChild(tokio::process::Child);

#[verifier::external_type_specification]
#[verifier::external_body]
#[verifier::reject_recursive_types(T)]
pub struct ExJoinHandle<T>(tokio::task::JoinHandle<T>);

#[verifier::external_type_specification]
#[verifier::external_body]
pub struct ExJoinError(tokio::task::JoinError);

/// Relies on `tokio::process::Child::start_kill`: asks the OS to force
/// the spawned process to exit, without awaiting it; reports whether the
/// signal could be delivered.
#[verifier::external_body]
fn start_kill_process(child: &mut tokio::process::Child) -> (delivered: bool) {
    match child.start_kill() {
        Ok(()) => true,
        Err(_) => false,
    }
}

/// One live terminal-sharing session.
///
/// The process handle and the reader-task handle are never shared:
/// closing consumes the whole session, so the process can be killed and
/// the reader task joined at most once per session.
#[derive(Debug)]
pub struct Connection {
    process: tokio::process::Child,
    pub creator: String,
    pub creation: String,
    pub timeout: String,
    reader: tokio::task::JoinHandle<()>,
}

impl Connection {
    /// The displayed name of whoever opened the session.
    pub closed spec fn spec_creator(&self) -> Seq<char> {
        self.creator@
    }

    /// The displayed creation time of the session.
    pub closed spec fn spec_creation(&self) -> Seq<char> {
        self.creation@
    }

    /// The displayed expiry time of the session.
    pub closed spec fn spec_timeout(&self) -> Seq<char> {
        self.timeout@
    }

    /// The handle of the reader task, joined exactly once, during close.
    pub closed spec fn spec_reader(&self) -> tokio::task::JoinHandle<()> {
        self.reader
    }

    /// Assembles a session around an already-spawned process and an
    /// already-running reader task.
    pub fn new(
        process: tokio::process::Child,
        creator: String,
        creation: String,
        timeout: String,
        reader: tokio::task::JoinHandle<()>,
    ) -> (c: Connection)
        ensures
            c.spec_creator() == creator@,
            c.spec_creation() == creation@,
            c.spec_timeout() == timeout@,
            c.spec_reader() == reader,
    {
        Connection { process, creator, creation, timeout, reader }
    }

    pub fn creator_text(&self) -> (s: String)
        ensures
            s@ == self.spec_creator(),
    {
        self.creator.clone()
    }

    pub fn creation_text(&self) -> (s: String)
        ensures
            s@ == self.spec_creation(),
    {
        self.creation.clone()
    }

    pub fn timeout_text(&self) -> (s: String)
        ensures
            s@ == self.spec_timeout(),
    {
        self.timeout.clone()
    }

    /// Tears the session down: kills the process and hands back the
    /// reader-task handle for the caller to await, together with whether
    /// the kill signal was delivered.  Consuming the session makes a
    /// second close of the same session impossible.
    pub fn close(self) -> (r: (bool, tokio::task::JoinHandle<()>))
        ensures
            r.1 == self.spec_reader(),
    {
        let Connection { process, creator: _, creation: _, timeout: _, reader } = self;
        let mut process = process;
        let delivered = start_kill_process(&mut process);
        (delivered, reader)
    }
}

} // verus!
