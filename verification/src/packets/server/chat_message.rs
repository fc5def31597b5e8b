//! A chat message.

use crate::number::{format_i64, signed_decimal};
use crate::packets::types::{
    decode_i64, i64_field, lemma_i64_field, FromParts, MessageFlags, ParsePacketError,
    Sockchatable,
};
use crate::text::{all_tab_free, join, join_fields, tab_free, texts};
use std::str::FromStr;
use vstd::prelude::*;

verus! {

/// A message was sent to the channel.
#[derive(Debug, Clone, PartialEq, Eq)]
pub struct ChatMessagePacket {
    pub timestamp: i64,
    pub user_id: String,
    pub message: String,
    pub sequence_id: String,
    pub message_flags: MessageFlags,
}

/// The model of a `ChatMessagePacket`.
pub struct ChatMessagePacketView {
    pub timestamp: i64,
    pub user_id: Seq<char>,
    pub message: Seq<char>,
    pub sequence_id: Seq<char>,
    pub message_flags: MessageFlags,
}

impl View for ChatMessagePacket {
    type V = ChatMessagePacketView;

    open spec fn view(&self) -> ChatMessagePacketView {
        ChatMessagePacketView {
            timestamp: self.timestamp,
            user_id: self.user_id@,
            message: self.message@,
            sequence_id: self.sequence_id@,
            message_flags: self.message_flags,
        }
    }
}

impl ChatMessagePacketView {
    /// The fields of the packet, in order.
    pub open spec fn fields(self) -> Seq<Seq<char>> {
        seq![
            signed_decimal(self.timestamp as int),
            self.user_id,
            self.message,
            self.sequence_id,
            self.message_flags.text(),
        ]
    }

    /// The number of fields of the packet.
    pub open spec fn arity() -> int {
        5
    }

    /// The packet that five fields hold. Any other number of fields is refused.
    pub open spec fn of_fields(parts: Seq<Seq<char>>) -> Result<
        ChatMessagePacketView,
        ParsePacketError,
    > {
        if parts.len() != Self::arity() {
            Err(ParsePacketError::WrongFormat)
        } else {
            match i64_field(parts[0]) {
                Err(e) => Err(e),
                Ok(timestamp) => match MessageFlags::of_text(parts[4]) {
                    Err(e) => Err(e),
                    Ok(message_flags) => Ok(
                        ChatMessagePacketView {
                            timestamp,
                            user_id: parts[1],
                            message: parts[2],
                            sequence_id: parts[3],
                            message_flags,
                        },
                    ),
                },
            }
        }
    }

    /// No text of the packet holds a tab.
    pub open spec fn is_tab_free(self) -> bool {
        tab_free(self.user_id) && tab_free(self.message) && tab_free(self.sequence_id)
    }

    /// A packet without tabs survives the wire.
    pub proof fn lemma_fields(self)
        requires
            self.is_tab_free(),
        ensures
            Self::of_fields(self.fields()) == Ok::<ChatMessagePacketView, ParsePacketError>(self),
            all_tab_free(self.fields()),
            self.fields().len() == 5,
    {
        lemma_i64_field(self.timestamp);
        self.message_flags.lemma_text();
    }

    /// What is decoded from fields without tabs holds no tab.
    pub proof fn lemma_of_fields(parts: Seq<Seq<char>>)
        requires
            all_tab_free(parts),
        ensures
            Self::of_fields(parts) matches Ok(packet) ==> packet.is_tab_free(),
    {
        if parts.len() == 5 {
            assert(tab_free(parts[1]) && tab_free(parts[2]) && tab_free(parts[3]));
        }
    }
}

impl ChatMessagePacket {
    /// The fields of the packet.
    pub fn to_parts(&self) -> (parts: Vec<String>)
        ensures
            texts(parts@) == self@.fields(),
    {
        let mut parts: Vec<String> = Vec::new();
        parts.push(format_i64(self.timestamp));
        parts.push(self.user_id.clone());
        parts.push(self.message.clone());
        parts.push(self.sequence_id.clone());
        parts.push(self.message_flags.to_sockstr());
        assert(texts(parts@) =~= self@.fields());
        parts
    }
}

impl FromParts for ChatMessagePacket {
    open spec fn of_parts(parts: Seq<Seq<char>>) -> Result<
        ChatMessagePacketView,
        ParsePacketError,
    > {
        ChatMessagePacketView::of_fields(parts)
    }

    fn from_parts(parts: Vec<String>) -> (r: Result<Self, ParsePacketError>) {
        if parts.len() != 5 {
            return Err(ParsePacketError::WrongFormat);
        }
        let ghost all = texts(parts@);
        assert(all[0] == parts@[0]@
            && all[1] == parts@[1]@
            && all[2] == parts@[2]@
            && all[3] == parts@[3]@
            && all[4] == parts@[4]@);
        let timestamp = decode_i64(parts[0].as_str())?;
        let message_flags = MessageFlags::from_str(parts[4].as_str())?;
        Ok(
            ChatMessagePacket {
                timestamp,
                user_id: parts[1].clone(),
                message: parts[2].clone(),
                sequence_id: parts[3].clone(),
                message_flags,
            },
        )
    }
}

impl Sockchatable for ChatMessagePacket {
    open spec fn encodable(&self) -> bool {
        true
    }

    open spec fn wire(&self) -> Seq<char> {
        join(self@.fields(), '\t')
    }

    fn to_sockstr(&self) -> (s: String) {
        join_fields(&self.to_parts())
    }
}

} // verus!
