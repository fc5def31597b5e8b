//! The order to forget what was shown.

use crate::packets::types::{FromParts, ParsePacketError, Sockchatable};
use crate::text::{all_tab_free, join, join_fields, leading_chars, texts};
use vstd::pervasive::unreached;
use vstd::prelude::*;

verus! {

/// What a client is to clear. Five combinations have a code on the wire; the
/// other three have none and are never decoded.
#[derive(Debug, Clone, Copy, PartialEq, Eq, Structural)]
pub struct ContextClearingPacket {
    pub message_history: bool,
    pub user_list: bool,
    pub channel_list: bool,
}

/// The packet under the name of what it holds.
pub type ClearedContext = ContextClearingPacket;

impl View for ContextClearingPacket {
    type V = ContextClearingPacket;

    open spec fn view(&self) -> ContextClearingPacket {
        *self
    }
}

impl ContextClearingPacket {
    /// The code of the combination, if it has one.
    pub open spec fn code(self) -> Option<char> {
        match (self.message_history, self.user_list, self.channel_list) {
            (true, false, false) => Some('0'),
            (false, true, false) => Some('1'),
            (false, false, true) => Some('2'),
            (true, true, false) => Some('3'),
            (true, true, true) => Some('4'),
            _ => None,
        }
    }

    /// The combination that a code stands for.
    pub open spec fn of_code(c: char) -> Option<ContextClearingPacket> {
        if c == '0' {
            Some(Self::clearing(true, false, false))
        } else if c == '1' {
            Some(Self::clearing(false, true, false))
        } else if c == '2' {
            Some(Self::clearing(false, false, true))
        } else if c == '3' {
            Some(Self::clearing(true, true, false))
        } else if c == '4' {
            Some(Self::clearing(true, true, true))
        } else {
            None
        }
    }

    /// The packet that clears the message history, the user list and the
    /// channel list as the three flags say.
    pub open spec fn clearing(
        message_history: bool,
        user_list: bool,
        channel_list: bool,
    ) -> ContextClearingPacket {
        ContextClearingPacket { message_history, user_list, channel_list }
    }

    /// The combination has a code.
    pub open spec fn is_representable(self) -> bool {
        self.code() is Some
    }

    /// The one field of the packet: its code.
    pub open spec fn fields(self) -> Seq<Seq<char>> {
        seq![seq![self.code()->0]]
    }

    /// The number of fields of the packet.
    pub open spec fn arity() -> int {
        1
    }

    /// The packet that one field holds: a code of one character. Any other
    /// number of fields, and any other text, is refused.
    pub open spec fn of_fields(parts: Seq<Seq<char>>) -> Result<
        ContextClearingPacket,
        ParsePacketError,
    > {
        if parts.len() == Self::arity() && parts[0].len() == 1 && Self::of_code(
            parts[0][0],
        ) is Some {
            Ok(Self::of_code(parts[0][0])->0)
        } else {
            Err(ParsePacketError::WrongFormat)
        }
    }

    /// A combination with a code survives the wire.
    pub proof fn lemma_fields(self)
        requires
            self.is_representable(),
        ensures
            Self::of_fields(self.fields()) == Ok::<ContextClearingPacket, ParsePacketError>(self),
            all_tab_free(self.fields()),
            self.fields().len() == 1,
    {
    }

    /// What is decoded has a code.
    pub proof fn lemma_decoded_is_representable(parts: Seq<Seq<char>>)
        ensures
            Self::of_fields(parts) matches Ok(packet) ==> packet.is_representable(),
    {
    }

    /// Whether the combination has a code, and so can be encoded.
    pub fn has_code(&self) -> (b: bool)
        ensures
            b == self.is_representable(),
    {
        match (self.message_history, self.user_list, self.channel_list) {
            (true, false, false) => true,
            (false, true, false) => true,
            (false, false, true) => true,
            (true, true, false) => true,
            (true, true, true) => true,
            _ => false,
        }
    }

    /// The fields of the packet.
    pub fn to_parts(&self) -> (parts: Vec<String>)
        requires
            self.is_representable(),
        ensures
            texts(parts@) == self@.fields(),
    {
        proof {
            reveal_strlit("0");
            reveal_strlit("1");
            reveal_strlit("2");
            reveal_strlit("3");
            reveal_strlit("4");
        }
        let code = match (self.message_history, self.user_list, self.channel_list) {
            (true, false, false) => "0",
            (false, true, false) => "1",
            (false, false, true) => "2",
            (true, true, false) => "3",
            (true, true, true) => "4",
            _ => unreached(),
        };
        assert(code@ =~= seq![self.code()->0]);
        let mut parts: Vec<String> = Vec::new();
        parts.push(code.to_owned());
        assert(texts(parts@) =~= self@.fields());
        parts
    }
}

impl FromParts for ContextClearingPacket {
    open spec fn of_parts(parts: Seq<Seq<char>>) -> Result<
        ContextClearingPacket,
        ParsePacketError,
    > {
        ContextClearingPacket::of_fields(parts)
    }

    fn from_parts(parts: Vec<String>) -> (r: Result<Self, ParsePacketError>) {
        if parts.len() != 1 {
            return Err(ParsePacketError::WrongFormat);
        }
        let ghost all = texts(parts@);
        assert(all[0] == parts@[0]@);
        let code = parts[0].as_str();
        if leading_chars(code, 2).is_some() {
            return Err(ParsePacketError::WrongFormat);
        }
        let c = match leading_chars(code, 1) {
            Some(head) => head[0],
            None => {
                return Err(ParsePacketError::WrongFormat);
            },
        };
        let (message_history, user_list, channel_list) = if c == '0' {
            (true, false, false)
        } else if c == '1' {
            (false, true, false)
        } else if c == '2' {
            (false, false, true)
        } else if c == '3' {
            (true, true, false)
        } else if c == '4' {
            (true, true, true)
        } else {
            return Err(ParsePacketError::WrongFormat);
        };
        Ok(ContextClearingPacket { message_history, user_list, channel_list })
    }
}

impl Sockchatable for ContextClearingPacket {
    open spec fn encodable(&self) -> bool {
        self.is_representable()
    }

    open spec fn wire(&self) -> Seq<char> {
        join(self@.fields(), '\t')
    }

    fn to_sockstr(&self) -> (s: String) {
        join_fields(&self.to_parts())
    }
}

} // verus!
