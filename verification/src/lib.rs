//! One node of a small peer-to-peer content-sharing network: the wire
//! protocol, the command handlers, the retry policy, the peer handshake and
//! the worker pool's queue, each as verified decisions over plain values.
//! Sockets, threads and the storage backend are driven by the host program.

/// Request handlers and the command tables.
pub mod api;
/// Key generation.
pub mod ident;
/// A node as its clients see it, and what holds of every request.
pub mod model;
/// The node and what starting it sets up.
pub mod node;
/// The queue of the worker pool.
pub mod pooling;
/// What a program that runs a node needs first.
pub mod prelude;
/// Requests and the connection handler.
pub mod protocol;
/// Bounded retry with a growing wait.
pub mod retry;
/// Calls to other nodes.
pub mod sdk;
/// The configuration of a node.
pub mod settings;
/// The handshake between nodes and the daemon that offers it.
pub mod sync;
/// Targets of an aggregate request.
pub mod target;
/// Conversions between bytes and text.
pub mod text;

use vstd::prelude::*;

verus! {

/// How one message is read off a stream.
pub struct Tcp;

/// Number of bytes that are asked of the stream at once.
pub const MAX_READ_BYTES: usize = 8;

/// The message that is read when the stream hands over `chunks`, one after
/// the other: all of them up to the first that is shorter than
/// `MAX_READ_BYTES`, that one included.
pub open spec fn received(chunks: Seq<Seq<u8>>) -> Seq<u8>
    decreases chunks.len(),
{
    if chunks.len() == 0 {
        Seq::empty()
    } else if chunks[0].len() < MAX_READ_BYTES {
        chunks[0]
    } else {
        chunks[0] + received(chunks.skip(1))
    }
}

/// One chunk more: a full chunk stands before what the later chunks give, and
/// a shorter one ends the message, whatever comes later.
pub proof fn lemma_received_chunk(chunk: Seq<u8>, later: Seq<Seq<u8>>)
    ensures
        received(seq![chunk] + later) == if chunk.len() >= MAX_READ_BYTES {
            chunk + received(later)
        } else {
            chunk
        },
{
    assert((seq![chunk] + later).skip(1) =~= later);
}

/// A message as a stream hands it over when nothing else comes in between:
/// in chunks of `MAX_READ_BYTES`, and a shorter one, which may be empty, at
/// the end.
pub open spec fn in_chunks(message: Seq<u8>) -> Seq<Seq<u8>>
    decreases message.len(),
{
    if message.len() < MAX_READ_BYTES {
        seq![message]
    } else {
        seq![message.take(MAX_READ_BYTES as int)] + in_chunks(message.skip(MAX_READ_BYTES as int))
    }
}

/// Reading a message that comes in chunks gives the message back.
pub proof fn lemma_read_in_chunks(message: Seq<u8>)
    ensures
        received(in_chunks(message)) == message,
    decreases message.len(),
{
    if message.len() >= MAX_READ_BYTES {
        let tail = message.skip(MAX_READ_BYTES as int);
        lemma_read_in_chunks(tail);
        assert(in_chunks(message).skip(1) =~= in_chunks(tail));
    }
}

impl Tcp {
    /// Takes one chunk that the stream gave and adds it to the message read
    /// so far. The message is complete as soon as a chunk is shorter than
    /// `MAX_READ_BYTES`; until then another chunk has to be read.
    pub fn read(buffer: &mut Vec<u8>, chunk: &[u8]) -> (more: bool)
        ensures
            final(buffer)@ == old(buffer)@ + chunk@,
            more == (chunk@.len() >= MAX_READ_BYTES),
    {
        text::append(buffer, chunk);
        chunk.len() >= MAX_READ_BYTES
    }
}

} // verus!
