//! The departure of a user from the server.

use crate::number::{format_i64, signed_decimal};
use crate::packets::types::{
    decode_i64, i64_field, lemma_i64_field, DisconnectReason, FromParts, ParsePacketError,
    Sockchatable,
};
use crate::text::{all_tab_free, join, join_fields, tab_free, texts};
use std::str::FromStr;
use vstd::prelude::*;

verus! {

/// A user left the server.
#[derive(Debug, Clone, PartialEq, Eq)]
pub struct UserDisconnectPacket {
    pub user_id: String,
    pub username: String,
    pub reason: DisconnectReason,
    pub timestamp: i64,
    pub sequence_id: String,
}

/// The model of a `UserDisconnectPacket`.
pub struct UserDisconnectPacketView {
    pub user_id: Seq<char>,
    pub username: Seq<char>,
    pub reason: DisconnectReason,
    pub timestamp: i64,
    pub sequence_id: Seq<char>,
}

impl View for UserDisconnectPacket {
    type V = UserDisconnectPacketView;

    open spec fn view(&self) -> UserDisconnectPacketView {
        UserDisconnectPacketView {
            user_id: self.user_id@,
            username: self.username@,
            reason: self.reason,
            timestamp: self.timestamp,
            sequence_id: self.sequence_id@,
        }
    }
}

impl UserDisconnectPacketView {
    /// The fields of the packet, in order.
    pub open spec fn fields(self) -> Seq<Seq<char>> {
        seq![
            self.user_id,
            self.username,
            self.reason.text(),
            signed_decimal(self.timestamp as int),
            self.sequence_id,
        ]
    }

    /// The number of fields of the packet.
    pub open spec fn arity() -> int {
        5
    }

    /// The packet that five fields hold. Any other number of fields is refused.
    pub open spec fn of_fields(parts: Seq<Seq<char>>) -> Result<
        UserDisconnectPacketView,
        ParsePacketError,
    > {
        if parts.len() != Self::arity() {
            Err(ParsePacketError::WrongFormat)
        } else {
            match DisconnectReason::of_text(parts[2]) {
                Err(e) => Err(e),
                Ok(reason) => match i64_field(parts[3]) {
                    Err(e) => Err(e),
                    Ok(timestamp) => Ok(
                        UserDisconnectPacketView {
                            user_id: parts[0],
                            username: parts[1],
                            reason,
                            timestamp,
                            sequence_id: parts[4],
                        },
                    ),
                },
            }
        }
    }

    /// No text of the packet holds a tab.
    pub open spec fn is_tab_free(self) -> bool {
        tab_free(self.user_id) && tab_free(self.username) && tab_free(self.sequence_id)
    }

    /// A packet without tabs survives the wire.
    pub proof fn lemma_fields(self)
        requires
            self.is_tab_free(),
        ensures
            Self::of_fields(self.fields()) == Ok::<UserDisconnectPacketView, ParsePacketError>(
                self,
            ),
            all_tab_free(self.fields()),
            self.fields().len() == 5,
    {
        self.reason.lemma_text();
        lemma_i64_field(self.timestamp);
    }

    /// What is decoded from fields without tabs holds no tab.
    pub proof fn lemma_of_fields(parts: Seq<Seq<char>>)
        requires
            all_tab_free(parts),
        ensures
            Self::of_fields(parts) matches Ok(packet) ==> packet.is_tab_free(),
    {
        if parts.len() == 5 {
            assert(tab_free(parts[0]) && tab_free(parts[1]) && tab_free(parts[4]));
        }
    }
}

impl UserDisconnectPacket {
    /// The fields of the packet.
    pub fn to_parts(&self) -> (parts: Vec<String>)
        ensures
            texts(parts@) == self@.fields(),
    {
        let mut parts: Vec<String> = Vec::new();
        parts.push(self.user_id.clone());
        parts.push(self.username.clone());
        parts.push(self.reason.to_sockstr());
        parts.push(format_i64(self.timestamp));
        parts.push(self.sequence_id.clone());
        assert(texts(parts@) =~= self@.fields());
        parts
    }
}

impl FromParts for UserDisconnectPacket {
    open spec fn of_parts(parts: Seq<Seq<char>>) -> Result<
        UserDisconnectPacketView,
        ParsePacketError,
    > {
        UserDisconnectPacketView::of_fields(parts)
    }

    fn from_parts(parts: Vec<String>) -> (r: Result<Self, ParsePacketError>) {
        if parts.len() != 5 {
            return Err(ParsePacketError::WrongFormat);
        }
        let ghost all = texts(parts@);
        assert(all[0] == parts@[0]@
            && all[1] == parts@[1]@
            && all[2] == parts@[2]@
            && all[3] == parts@[3]@
            && all[4] == parts@[4]@);
        let reason = DisconnectReason::from_str(parts[2].as_str())?;
        let timestamp = decode_i64(parts[3].as_str())?;
        Ok(
            UserDisconnectPacket {
                user_id: parts[0].clone(),
                username: parts[1].clone(),
                reason,
                timestamp,
                sequence_id: parts[4].clone(),
            },
        )
    }
}

impl Sockchatable for UserDisconnectPacket {
    open spec fn encodable(&self) -> bool {
        true
    }

    open spec fn wire(&self) -> Seq<char> {
        join(self@.fields(), '\t')
    }

    fn to_sockstr(&self) -> (s: String) {
        join_fields(&self.to_parts())
    }
}

} // verus!
