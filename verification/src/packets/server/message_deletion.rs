//! The deletion of a message.

use crate::packets::types::{FromParts, ParsePacketError, Sockchatable};
use crate::text::{all_tab_free, join, join_fields, tab_free, texts};
use vstd::prelude::*;

verus! {

/// A message was deleted.
#[derive(Debug, Clone, PartialEq, Eq)]
pub struct MessageDeletionPacket {
    pub sequence_id: String,
}

/// The model of a `MessageDeletionPacket`.
pub struct MessageDeletionPacketView {
    pub sequence_id: Seq<char>,
}

impl View for MessageDeletionPacket {
    type V = MessageDeletionPacketView;

    open spec fn view(&self) -> MessageDeletionPacketView {
        MessageDeletionPacketView {
            sequence_id: self.sequence_id@,
        }
    }
}

impl MessageDeletionPacketView {
    /// The fields of the packet, in order.
    pub open spec fn fields(self) -> Seq<Seq<char>> {
        seq![self.sequence_id]
    }

    /// The number of fields of the packet.
    pub open spec fn arity() -> int {
        1
    }

    /// The packet that one field holds. Any other number of fields is refused.
    pub open spec fn of_fields(parts: Seq<Seq<char>>) -> Result<
        MessageDeletionPacketView,
        ParsePacketError,
    > {
        if parts.len() != Self::arity() {
            Err(ParsePacketError::WrongFormat)
        } else {
            Ok(MessageDeletionPacketView { sequence_id: parts[0] })
        }
    }

    /// No text of the packet holds a tab.
    pub open spec fn is_tab_free(self) -> bool {
        tab_free(self.sequence_id)
    }

    /// A packet without tabs survives the wire.
    pub proof fn lemma_fields(self)
        requires
            self.is_tab_free(),
        ensures
            Self::of_fields(self.fields()) == Ok::<MessageDeletionPacketView, ParsePacketError>(
                self,
            ),
            all_tab_free(self.fields()),
            self.fields().len() == 1,
    {
    }

    /// What is decoded from fields without tabs holds no tab.
    pub proof fn lemma_of_fields(parts: Seq<Seq<char>>)
        requires
            all_tab_free(parts),
        ensures
            Self::of_fields(parts) matches Ok(packet) ==> packet.is_tab_free(),
    {
        if parts.len() == 1 {
            assert(tab_free(parts[0]));
        }
    }
}

impl MessageDeletionPacket {
    /// The fields of the packet.
    pub fn to_parts(&self) -> (parts: Vec<String>)
        ensures
            texts(parts@) == self@.fields(),
    {
        let mut parts: Vec<String> = Vec::new();
        parts.push(self.sequence_id.clone());
        assert(texts(parts@) =~= self@.fields());
        parts
    }
}

impl FromParts for MessageDeletionPacket {
    open spec fn of_parts(parts: Seq<Seq<char>>) -> Result<
        MessageDeletionPacketView,
        ParsePacketError,
    > {
        MessageDeletionPacketView::of_fields(parts)
    }

    fn from_parts(parts: Vec<String>) -> (r: Result<Self, ParsePacketError>) {
        if parts.len() != 1 {
            return Err(ParsePacketError::WrongFormat);
        }
        let ghost all = texts(parts@);
        assert(all[0] == parts@[0]@);
        Ok(MessageDeletionPacket { sequence_id: parts[0].clone() })
    }
}

impl Sockchatable for MessageDeletionPacket {
    open spec fn encodable(&self) -> bool {
        true
    }

    open spec fn wire(&self) -> Seq<char> {
        join(self@.fields(), '\t')
    }

    fn to_sockstr(&self) -> (s: String) {
        join_fields(&self.to_parts())
    }
}

} // verus!
