use crate::api::AGGREGATE;
use crate::text::{append, bytes_of};
use vstd::prelude::*;
use vstd::utf8::*;

verus! {

/// Why a call to another node failed.
#[derive(Debug)]
pub enum Error {
    /// The connection could not be made, written to or read from.
    Io(std::io::Error),
}

impl Error {
    /// The failure of the stream that the error carries.
    pub open spec fn cause(&self) -> std::io::Error {
        match *self {
            Error::Io(e) => e,
        }
    }

    /// The error as text: what the failure of the stream displays as.
    pub fn to_string(&self) -> (text: String)
        ensures
            vstd::string::to_string_from_display_ensures::<std::io::Error>(&self.cause(), text),
    {
        match self {
            Error::Io(e) => e.to_string(),
        }
    }
}

/// What a call ends with: the bytes of the reply, or the error.
pub type SdkResult = Result<Vec<u8>, Error>;

/// A call to be made to another node: where to connect and what to send.
#[derive(Debug)]
pub struct Call {
    /// Address of the node, as `host:port`.
    pub addr: String,
    /// The request message.
    pub request: Vec<u8>,
}

/// The message that asks a node for the value of one key.
pub open spec fn request_for(key: Seq<char>) -> Seq<u8> {
    seq![AGGREGATE] + encode_utf8(key) + seq![0u8]
}

/// Prepares the request that aggregates the value of `key` from the node at
/// `addr`. The reply to it is that node's whole response message.
pub fn aggregate(addr: String, key: String) -> (call: Call)
    ensures
        call.addr@ == addr@,
        call.request@ == request_for(key@),
{
    let mut request: Vec<u8> = Vec::new();
    request.push(AGGREGATE);
    let key_bytes = bytes_of(&key);
    append(&mut request, key_bytes.as_slice());
    request.push(0);
    Call { addr, request }
}

} // verus!
