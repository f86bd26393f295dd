//! The connection layer's verifiable core: the handler registry shared by
//! every connection of one dispatcher, the per-message decision of the
//! decode-then-deliver loop, and the single-shot start/stop guard. The
//! sockets, the runtime and the per-connection tasks live outside the
//! library and consult these rules.

use vstd::prelude::*;

use crate::packet::message::Message;
use crate::strmap::StrMap;

verus! {

/// Which end of the protocol a dispatcher serves.
pub enum PacketType {
    Server,
    Client,
}

/// The registry of message handlers, keyed by name, together with the
/// running flag of the dispatcher that owns it. Every message read from a
/// connection is delivered to every registered handler.
pub struct TcpHandler<H> {
    running: bool,
    handler: StrMap<H>,
}

impl<H> TcpHandler<H> {
    /// The registry's backing store is well formed.
    pub closed spec fn wf(&self) -> bool {
        self.handler.wf()
    }

    /// The handlers currently registered, by name.
    pub closed spec fn handlers(&self) -> Map<Seq<char>, H> {
        self.handler@
    }

    /// Whether the dispatcher is marked running.
    pub closed spec fn spec_running(&self) -> bool {
        self.running
    }

    /// An empty registry, not yet running.
    pub fn new() -> (r: Self)
        ensures
            r.wf(),
            r.handlers() == Map::<Seq<char>, H>::empty(),
            !r.spec_running(),
    {
        Self { running: false, handler: StrMap::new() }
    }

    /// Registers `handle` under `handle_name`. A second registration under
    /// the same name replaces the first: last write wins on that key.
    pub fn add_handle(&mut self, handle_name: String, handle: H)
        requires
            old(self).wf(),
        ensures
            final(self).wf(),
            final(self).handlers() == old(self).handlers().insert(handle_name@, handle),
            final(self).spec_running() == old(self).spec_running(),
    {
        self.handler.insert(handle_name, handle);
    }

    /// Unregisters the handler under `handle_name`. Removing a name that
    /// was never added is a no-op.
    pub fn remove_handle(&mut self, handle_name: &String)
        requires
            old(self).wf(),
        ensures
            final(self).wf(),
            final(self).handlers() == old(self).handlers().remove(handle_name@),
            final(self).spec_running() == old(self).spec_running(),
    {
        let _ = self.handler.take(handle_name);
    }

    /// The handler registered under `handle_name`, when there is one.
    pub fn get_handle(&self, handle_name: &String) -> (r: Option<&H>)
        requires
            self.wf(),
        ensures
            self.handlers().contains_key(handle_name@) ==> (r matches Some(h) && *h
                == self.handlers()[handle_name@]),
            !self.handlers().contains_key(handle_name@) ==> r is None,
    {
        self.handler.get(handle_name)
    }

    /// The names of every registered handler, for delivering a message to
    /// all of them: publish semantics, not first-match.
    pub fn handle_names(&self) -> (r: Vec<String>)
        requires
            self.wf(),
        ensures
            forall|i: int| 0 <= i < r@.len() ==> self.handlers().contains_key(#[trigger] r@[i]@),
            forall|k: Seq<char>|
                self.handlers().contains_key(k) ==> exists|i: int| 0 <= i < r@.len()
                    && #[trigger] r@[i]@ == k,
    {
        self.handler.keys()
    }

    /// Marks the dispatcher running or stopped.
    pub fn set_running(&mut self, running: bool)
        requires
            old(self).wf(),
        ensures
            final(self).wf(),
            final(self).spec_running() == running,
            final(self).handlers() == old(self).handlers(),
    {
        self.running = running;
    }

    /// Whether the dispatcher is marked running.
    pub fn is_running(&self) -> (r: bool)
        ensures
            r == self.spec_running(),
    {
        self.running
    }
}

/// What one read attempt on a connection produced.
pub enum ReadOutcome {
    /// A whole message was decoded.
    Message(Message),
    /// No data was ready yet; not an error.
    WouldBlock,
    /// The read or the decode failed for good.
    Failed,
}

/// What the dispatch loop does next with one read outcome.
#[derive(Debug, Clone, Copy, PartialEq, Eq, Structural)]
pub enum LoopAction {
    /// Deliver the decoded message to every registered handler.
    Deliver,
    /// Try reading again: a would-block read means "no message yet".
    Retry,
    /// Leave the loop: the dispatcher stopped or the connection broke.
    Stop,
}

/// The decision of the decode-then-deliver loop for one read attempt: a
/// stopped dispatcher always leaves the loop; otherwise a message is
/// delivered, a would-block read is retried, and any other failure ends
/// the connection's loop (that connection only).
pub fn dispatch_step(running: bool, outcome: &ReadOutcome) -> (r: LoopAction)
    ensures
        !running ==> r == LoopAction::Stop,
        running ==> match outcome {
            ReadOutcome::Message(_) => r == LoopAction::Deliver,
            ReadOutcome::WouldBlock => r == LoopAction::Retry,
            ReadOutcome::Failed => r == LoopAction::Stop,
        },
{
    if !running {
        return LoopAction::Stop;
    }
    match outcome {
        ReadOutcome::Message(_) => LoopAction::Deliver,
        ReadOutcome::WouldBlock => LoopAction::Retry,
        ReadOutcome::Failed => LoopAction::Stop,
    }
}

/// The single-shot start guard: flips the running flag on and reports
/// whether this call was the one that flipped it. A second start is a
/// no-op that reports `false`.
pub fn single_shot_start(running: &mut bool) -> (proceed: bool)
    ensures
        *final(running) == true,
        proceed == !*old(running),
{
    let was = *running;
    *running = true;
    !was
}

/// The single-shot stop guard: flips the running flag off and reports
/// whether this call was the one that flipped it. A second stop is a
/// no-op that reports `false`.
pub fn single_shot_stop(running: &mut bool) -> (proceed: bool)
    ensures
        *final(running) == false,
        proceed == *old(running),
{
    let was = *running;
    *running = false;
    was
}

/// Idempotent removal: taking a name that a registry does not hold leaves
/// its handler map exactly as it was.
pub proof fn lemma_remove_absent_is_noop<H>(handlers: Map<Seq<char>, H>, name: Seq<char>)
    requires
        !handlers.contains_key(name),
    ensures
        handlers.remove(name) == handlers,
{
    assert(handlers.remove(name) =~= handlers);
}

/// Last write wins: registering twice under one name leaves exactly the
/// handler map that registering only the second handler would leave.
pub proof fn lemma_add_same_name_replaces<H>(
    handlers: Map<Seq<char>, H>,
    name: Seq<char>,
    first: H,
    second: H,
)
    ensures
        handlers.insert(name, first).insert(name, second) == handlers.insert(name, second),
{
    assert(handlers.insert(name, first).insert(name, second) =~= handlers.insert(name, second));
}

} // verus!
