//! The forced end of a connection.

use crate::number::{format_i64, signed_decimal};
use crate::packets::types::{
    decode_i64, i64_field, lemma_i64_field, lemma_sockbool, sockbool_of, sockbool_text, FromParts,
    ParsePacketError, ParseSockBool, Sockchatable,
};
use crate::text::{all_tab_free, join, join_fields, texts};
use vstd::prelude::*;

verus! {

/// The client was kicked or banned.
#[derive(Debug, Clone, Copy, PartialEq, Eq, Structural)]
pub struct ForcedDisconnectPacket {
    pub ban: bool,
    pub timestamp: i64,
}

impl View for ForcedDisconnectPacket {
    type V = ForcedDisconnectPacket;

    open spec fn view(&self) -> ForcedDisconnectPacket {
        *self
    }
}

impl ForcedDisconnectPacket {
    /// The fields of the packet, in order.
    pub open spec fn fields(self) -> Seq<Seq<char>> {
        seq![sockbool_text(self.ban), signed_decimal(self.timestamp as int)]
    }

    /// The number of fields of the packet.
    pub open spec fn arity() -> int {
        2
    }

    /// The packet that two fields hold. Any other number of fields is refused.
    pub open spec fn of_fields(parts: Seq<Seq<char>>) -> Result<
        ForcedDisconnectPacket,
        ParsePacketError,
    > {
        if parts.len() != Self::arity() {
            Err(ParsePacketError::WrongFormat)
        } else {
            match sockbool_of(parts[0]) {
                Err(e) => Err(e),
                Ok(ban) => match i64_field(parts[1]) {
                    Err(e) => Err(e),
                    Ok(timestamp) => Ok(ForcedDisconnectPacket { ban, timestamp }),
                },
            }
        }
    }

    /// The packet survives the wire.
    pub proof fn lemma_fields(self)
        ensures
            Self::of_fields(self.fields()) == Ok::<ForcedDisconnectPacket, ParsePacketError>(self),
            all_tab_free(self.fields()),
            self.fields().len() == 2,
    {
        lemma_sockbool(self.ban);
        lemma_i64_field(self.timestamp);
    }
}

impl ForcedDisconnectPacket {
    /// The fields of the packet.
    pub fn to_parts(&self) -> (parts: Vec<String>)
        ensures
            texts(parts@) == self@.fields(),
    {
        let mut parts: Vec<String> = Vec::new();
        parts.push(self.ban.to_sockstr());
        parts.push(format_i64(self.timestamp));
        assert(texts(parts@) =~= self@.fields());
        parts
    }
}

impl FromParts for ForcedDisconnectPacket {
    open spec fn of_parts(parts: Seq<Seq<char>>) -> Result<
        ForcedDisconnectPacket,
        ParsePacketError,
    > {
        ForcedDisconnectPacket::of_fields(parts)
    }

    fn from_parts(parts: Vec<String>) -> (r: Result<Self, ParsePacketError>) {
        if parts.len() != 2 {
            return Err(ParsePacketError::WrongFormat);
        }
        let ghost all = texts(parts@);
        assert(all[0] == parts@[0]@ && all[1] == parts@[1]@);
        let ban = parts[0].parse_sockbool()?;
        let timestamp = decode_i64(parts[1].as_str())?;
        Ok(ForcedDisconnectPacket { ban, timestamp })
    }
}

impl Sockchatable for ForcedDisconnectPacket {
    open spec fn encodable(&self) -> bool {
        true
    }

    open spec fn wire(&self) -> Seq<char> {
        join(self@.fields(), '\t')
    }

    fn to_sockstr(&self) -> (s: String) {
        join_fields(&self.to_parts())
    }
}

} // verus!
