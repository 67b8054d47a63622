//! The whole-buffer codec of the desk: a message to its bytes and bytes to a message.
use crate::buf::{buf_from_slice, buf_into_vec, buf_new};
use crate::error::ProtocolError;
use crate::flipper_core::message::{parse_entry, EntryModel, Message, MessageEntry};
use crate::flipper_core::protocol::{BinaryInputProtocol, BinaryOutputProtocol};
use vstd::prelude::*;

verus! {

/// Turns one message into bytes and bytes into one message.
pub struct MessageCodec;

impl MessageCodec {
    /// The wire form of `msg`.
    pub fn encode<T: Message>(msg: T) -> (bytes: Vec<u8>)
        requires
            T::wire_form(msg@).len() <= isize::MAX,
        ensures
            bytes@ == T::wire_form(msg@),
    {
        let mut protocol = BinaryOutputProtocol::new(buf_new());
        let _ = msg.encode(&mut protocol);
        assert(Seq::<u8>::empty() + T::wire_form(msg@) =~= T::wire_form(msg@));
        buf_into_vec(protocol.into_inner())
    }

    /// The message at the front of `bytes`; what follows it is ignored.
    pub fn decode(bytes: Vec<u8>) -> (r: Result<MessageEntry, ProtocolError>)
        ensures
            parse_entry(bytes@).0 is Ok <==> r is Ok,
            r matches Ok(m) ==> parse_entry(bytes@).0 == Ok::<EntryModel, ProtocolError>(m@),
            r matches Err(e) ==> parse_entry(bytes@).0 == Err::<EntryModel, ProtocolError>(e),
    {
        let mut protocol = BinaryInputProtocol::new(buf_from_slice(bytes.as_slice()));
        MessageEntry::decode(&mut protocol)
    }
}

} // verus!
