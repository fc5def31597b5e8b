//! A message of a client.

use crate::packets::types::{FromParts, ParsePacketError, Sockchatable};
use crate::text::{all_tab_free, join, join_fields, tab_free, texts};
use vstd::prelude::*;

verus! {

/// Sends a message to the channel.
#[derive(Debug, Clone, PartialEq, Eq)]
pub struct MessagePacket {
    pub user_id: String,
    pub message: String,
}

/// The model of a `MessagePacket`.
pub struct MessagePacketView {
    pub user_id: Seq<char>,
    pub message: Seq<char>,
}

impl View for MessagePacket {
    type V = MessagePacketView;

    open spec fn view(&self) -> MessagePacketView {
        MessagePacketView {
            user_id: self.user_id@,
            message: self.message@,
        }
    }
}

impl MessagePacketView {
    /// The fields of the packet, in order.
    pub open spec fn fields(self) -> Seq<Seq<char>> {
        seq![self.user_id, self.message]
    }

    /// The number of fields of the packet.
    pub open spec fn arity() -> int {
        2
    }

    /// The packet that two fields hold. Any other number of fields is refused.
    pub open spec fn of_fields(parts: Seq<Seq<char>>) -> Result<
        MessagePacketView,
        ParsePacketError,
    > {
        if parts.len() != Self::arity() {
            Err(ParsePacketError::WrongFormat)
        } else {
            Ok(MessagePacketView { user_id: parts[0], message: parts[1] })
        }
    }

    /// No text of the packet holds a tab.
    pub open spec fn is_tab_free(self) -> bool {
        tab_free(self.user_id) && tab_free(self.message)
    }

    /// A packet without tabs survives the wire.
    pub proof fn lemma_fields(self)
        requires
            self.is_tab_free(),
        ensures
            Self::of_fields(self.fields()) == Ok::<MessagePacketView, ParsePacketError>(self),
            all_tab_free(self.fields()),
            self.fields().len() == 2,
    {
    }

    /// What is decoded from fields without tabs holds no tab.
    pub proof fn lemma_of_fields(parts: Seq<Seq<char>>)
        requires
            all_tab_free(parts),
        ensures
            Self::of_fields(parts) matches Ok(packet) ==> packet.is_tab_free(),
    {
        if parts.len() == 2 {
            assert(tab_free(parts[0]) && tab_free(parts[1]));
        }
    }
}

impl MessagePacket {
    /// The fields of the packet.
    pub fn to_parts(&self) -> (parts: Vec<String>)
        ensures
            texts(parts@) == self@.fields(),
    {
        let mut parts: Vec<String> = Vec::new();
        parts.push(self.user_id.clone());
        parts.push(self.message.clone());
        assert(texts(parts@) =~= self@.fields());
        parts
    }
}

impl FromParts for MessagePacket {
    open spec fn of_parts(parts: Seq<Seq<char>>) -> Result<MessagePacketView, ParsePacketError> {
        MessagePacketView::of_fields(parts)
    }

    fn from_parts(parts: Vec<String>) -> (r: Result<Self, ParsePacketError>) {
        if parts.len() != 2 {
            return Err(ParsePacketError::WrongFormat);
        }
        let ghost all = texts(parts@);
        assert(all[0] == parts@[0]@ && all[1] == parts@[1]@);
        Ok(MessagePacket { user_id: parts[0].clone(), message: parts[1].clone() })
    }
}

impl Sockchatable for MessagePacket {
    open spec fn encodable(&self) -> bool {
        true
    }

    open spec fn wire(&self) -> Seq<char> {
        join(self@.fields(), '\t')
    }

    fn to_sockstr(&self) -> (s: String) {
        join_fields(&self.to_parts())
    }
}

} // verus!
