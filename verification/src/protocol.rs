use crate::api::{
    code_lookup, code_table, handler_lookup, handler_table, lemma_tables_agree, result_view,
    unknown_command, Command, Failure, HandlerOutputCodes, HandlerResult,
};
use crate::node::Node;
use crate::settings::Permissions;
use crate::sync::{answer_code, sync_reply, PROTO_SYNC_REQ};
use crate::text::append;
use vstd::prelude::*;

verus! {

/// One request: the command code and the payload that came with it.
#[derive(Debug)]
pub struct Packet {
    /// The request code, by which the handler is looked up.
    pub code: u8,
    /// The request payload, without the code that led the message.
    pub buffer: Vec<u8>,
}

impl Packet {
    /// Splits a message into its code and payload. An empty message holds no
    /// request.
    pub fn parse(message: &[u8]) -> (packet: Option<Packet>)
        ensures
            message@.len() == 0 ==> packet is None,
            message@.len() > 0 ==> (packet matches Some(p) && p.code == message@[0]
                && p.buffer@ == message@.skip(1)),
    {
        if message.len() == 0 {
            return None;
        }
        let mut buffer: Vec<u8> = Vec::new();
        let mut i: usize = 1;
        while i < message.len()
            invariant
                1 <= i <= message.len(),
                buffer@ == message@.subrange(1, i as int),
            decreases message.len() - i,
        {
            buffer.push(message[i]);
            i += 1;
        }
        Some(Packet { code: message[0], buffer })
    }
}

/// Handles the requests that come in on one connection. The host reads a
/// message, asks the handler what to do with it, and goes on with the next
/// message of the same connection whatever the answer was.
#[derive(Clone, Copy, Debug)]
pub struct Handler {
    /// What other nodes may do on this one.
    pub perms: Permissions,
}

/// What the connection handler does with one message.
#[derive(Debug)]
pub enum Reaction {
    /// The message is empty: nothing is written.
    Ignore,
    /// Write these bytes.
    Reply(Vec<u8>),
    /// Run the handler `command` on `packet`, step by step, and write the
    /// response that its result makes with `codes`.
    Run { command: Command, codes: HandlerOutputCodes, packet: Packet },
}

/// A reaction as its contracts see it.
pub enum ReactionView {
    Ignore,
    Reply(Seq<u8>),
    Run { command: Command, codes: HandlerOutputCodes, code: u8, payload: Seq<u8> },
}

impl View for Reaction {
    type V = ReactionView;

    open spec fn view(&self) -> ReactionView {
        match self {
            Reaction::Ignore => ReactionView::Ignore,
            Reaction::Reply(bytes) => ReactionView::Reply(bytes@),
            Reaction::Run { command, codes, packet } => ReactionView::Run {
                command: *command,
                codes: *codes,
                code: packet.code,
                payload: packet.buffer@,
            },
        }
    }
}

/// What a message calls for on a node with these permissions. An empty
/// message is passed over. The first byte of any other is its code: the
/// handshake is answered at once, a code of the table of handlers has its
/// handler run on the rest of the message, and every other code gets the
/// reply to an unknown command.
pub open spec fn reaction_to(perms: Permissions, message: Seq<u8>) -> ReactionView {
    if message.len() == 0 {
        ReactionView::Ignore
    } else if message[0] == PROTO_SYNC_REQ {
        ReactionView::Reply(seq![answer_code(perms)])
    } else {
        match handler_table(message[0]) {
            Some(command) => ReactionView::Run {
                command,
                codes: code_table(message[0])->0,
                code: message[0],
                payload: message.skip(1),
            },
            None => ReactionView::Reply(seq![1u8, 1u8]),
        }
    }
}

/// The byte that stands behind the status of a failure and ends the
/// response.
pub const FAILURE_MARKER: u8 = 0;

/// The response to a request whose handler ended with `result`: the status
/// for success and the payload, or the status for failure and the marker.
pub open spec fn response(codes: HandlerOutputCodes, result: Result<Seq<u8>, Failure>) -> Seq<u8> {
    match result {
        Ok(payload) => seq![codes.0] + payload,
        Err(_) => seq![codes.1, FAILURE_MARKER],
    }
}

impl Handler {
    /// The handler of a connection to `node`.
    pub fn new(node: &Node) -> (handler: Handler)
        ensures
            handler.perms == node.settings.perms,
    {
        Handler { perms: node.settings.perms }
    }

    /// Decides what one message calls for.
    pub fn tcp(&self, message: &[u8]) -> (reaction: Reaction)
        ensures
            reaction@ == reaction_to(self.perms, message@),
    {
        let packet = match Packet::parse(message) {
            Some(packet) => packet,
            None => {
                return Reaction::Ignore;
            },
        };
        if packet.code == PROTO_SYNC_REQ {
            return Reaction::Reply(sync_reply(&self.perms));
        }
        match handler_lookup(packet.code) {
            Some(command) => {
                proof {
                    lemma_tables_agree(packet.code);
                }
                let codes = code_lookup(packet.code).unwrap();
                Reaction::Run { command, codes, packet }
            },
            None => Reaction::Reply(unknown_command(packet)),
        }
    }

    /// Frames the response to a request from the result of its handler.
    pub fn respond(codes: HandlerOutputCodes, result: &HandlerResult) -> (bytes: Vec<u8>)
        ensures
            bytes@ == response(codes, result_view(*result)),
    {
        let mut bytes: Vec<u8> = Vec::new();
        match result {
            Ok(reply) => {
                bytes.push(codes.0);
                append(&mut bytes, reply.as_slice());
            },
            Err(_) => {
                bytes.push(codes.1);
                bytes.push(FAILURE_MARKER);
            },
        }
        bytes
    }
}

/// A message whose code is neither that of the handshake nor in the table of
/// handlers is answered with the bytes 1 and 1, whatever follows the code.
pub proof fn lemma_unknown_code(perms: Permissions, message: Seq<u8>)
    requires
        message.len() > 0,
        message[0] != PROTO_SYNC_REQ,
        handler_table(message[0]) is None,
    ensures
        reaction_to(perms, message) == ReactionView::Reply(seq![1u8, 1u8]),
{
}

} // verus!
