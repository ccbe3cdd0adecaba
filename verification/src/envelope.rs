//! A request together with the channel for its reply.

use tokio::sync::oneshot;
use vstd::prelude::*;

verus! {

/// Request-response envelope: wraps a command with its reply channel.
///
/// Use this for message enums in which every variant carries a reply sender.
#[verifier::reject_recursive_types(Resp)]
pub struct Envelope<Req, Resp> {
    pub req: Req,
    pub reply: oneshot::Sender<Resp>,
}

impl<Req, Resp> Envelope<Req, Resp> {
    /// Put `req` and the sender for its reply into one envelope.
    pub fn new(req: Req, reply: oneshot::Sender<Resp>) -> (e: Envelope<Req, Resp>)
        ensures
            e.req == req,
            e.reply == reply,
    {
        Envelope { req, reply }
    }
}

} // verus!
