//! The packets that a server sends.

pub mod channel_event;
pub mod channel_switching;
pub mod chat_message;
pub mod context_clearing;
pub mod context_information;
pub mod forced_disconnect;
pub mod join_auth;
pub mod message_deletion;
pub mod pong;
pub mod user_disconnect;
pub mod user_update;

pub use channel_event::{ChannelEventPacket, ChannelEventPacketView};
pub use channel_switching::{ChannelSwitchingPacket, ChannelSwitchingPacketView};
pub use chat_message::{ChatMessagePacket, ChatMessagePacketView};
pub use context_clearing::{ClearedContext, ContextClearingPacket};
pub use context_information::{ContextInformationPacket, ContextInformationPacketView};
pub use forced_disconnect::ForcedDisconnectPacket;
pub use join_auth::{JoinAuthPacket, JoinAuthPacketView};
pub use message_deletion::{MessageDeletionPacket, MessageDeletionPacketView};
pub use pong::{PongPacket, PongPacketView};
pub use user_disconnect::{UserDisconnectPacket, UserDisconnectPacketView};
pub use user_update::{UserUpdatePacket, UserUpdatePacketView};

use crate::packets::types::{lift, view_of, FromParts, ParsePacketError, Sockchatable};
use crate::text::{
    all_tab_free, is_char, join, join_fields, lemma_split_free, lemma_split_join, same_text,
    split, split_fields, tab_free, texts,
};
use std::str::FromStr;
use vstd::prelude::*;

verus! {

/// A packet of a server.
#[derive(Debug, Clone, PartialEq, Eq)]
pub enum ServerPacket {
    Pong(PongPacket),
    JoinAuth(JoinAuthPacket),
    ChatMessage(ChatMessagePacket),
    UserDisconnect(UserDisconnectPacket),
    ChannelEvent(ChannelEventPacket),
    ChannelSwitching(ChannelSwitchingPacket),
    MessageDeletion(MessageDeletionPacket),
    ContextInformation(ContextInformationPacket),
    ContextClearing(ContextClearingPacket),
    ForcedDisconnect(ForcedDisconnectPacket),
    UserUpdate(UserUpdatePacket),
}

/// The model of a `ServerPacket`.
pub enum ServerPacketView {
    Pong(PongPacketView),
    JoinAuth(JoinAuthPacketView),
    ChatMessage(ChatMessagePacketView),
    UserDisconnect(UserDisconnectPacketView),
    ChannelEvent(ChannelEventPacketView),
    ChannelSwitching(ChannelSwitchingPacketView),
    MessageDeletion(MessageDeletionPacketView),
    ContextInformation(ContextInformationPacketView),
    ContextClearing(ContextClearingPacket),
    ForcedDisconnect(ForcedDisconnectPacket),
    UserUpdate(UserUpdatePacketView),
}

impl View for ServerPacket {
    type V = ServerPacketView;

    open spec fn view(&self) -> ServerPacketView {
        match self {
            ServerPacket::Pong(packet) => ServerPacketView::Pong(packet@),
            ServerPacket::JoinAuth(packet) => ServerPacketView::JoinAuth(packet@),
            ServerPacket::ChatMessage(packet) => ServerPacketView::ChatMessage(packet@),
            ServerPacket::UserDisconnect(packet) => ServerPacketView::UserDisconnect(packet@),
            ServerPacket::ChannelEvent(packet) => ServerPacketView::ChannelEvent(packet@),
            ServerPacket::ChannelSwitching(packet) => ServerPacketView::ChannelSwitching(packet@),
            ServerPacket::MessageDeletion(packet) => ServerPacketView::MessageDeletion(packet@),
            ServerPacket::ContextInformation(packet) => ServerPacketView::ContextInformation(
                packet@,
            ),
            ServerPacket::ContextClearing(packet) => ServerPacketView::ContextClearing(*packet),
            ServerPacket::ForcedDisconnect(packet) => ServerPacketView::ForcedDisconnect(*packet),
            ServerPacket::UserUpdate(packet) => ServerPacketView::UserUpdate(packet@),
        }
    }
}

impl ServerPacketView {
    /// The tag of the variant.
    pub open spec fn tag(self) -> Seq<char> {
        match self {
            ServerPacketView::Pong(_) => seq!['0'],
            ServerPacketView::JoinAuth(_) => seq!['1'],
            ServerPacketView::ChatMessage(_) => seq!['2'],
            ServerPacketView::UserDisconnect(_) => seq!['3'],
            ServerPacketView::ChannelEvent(_) => seq!['4'],
            ServerPacketView::ChannelSwitching(_) => seq!['5'],
            ServerPacketView::MessageDeletion(_) => seq!['6'],
            ServerPacketView::ContextInformation(_) => seq!['7'],
            ServerPacketView::ContextClearing(_) => seq!['8'],
            ServerPacketView::ForcedDisconnect(_) => seq!['9'],
            ServerPacketView::UserUpdate(_) => seq!['1', '0'],
        }
    }

    /// The fields of the variant, which follow the tag.
    pub open spec fn body(self) -> Seq<Seq<char>> {
        match self {
            ServerPacketView::Pong(packet) => packet.fields(),
            ServerPacketView::JoinAuth(packet) => packet.fields(),
            ServerPacketView::ChatMessage(packet) => packet.fields(),
            ServerPacketView::UserDisconnect(packet) => packet.fields(),
            ServerPacketView::ChannelEvent(packet) => packet.fields(),
            ServerPacketView::ChannelSwitching(packet) => packet.fields(),
            ServerPacketView::MessageDeletion(packet) => packet.fields(),
            ServerPacketView::ContextInformation(packet) => packet.fields(),
            ServerPacketView::ContextClearing(packet) => packet.fields(),
            ServerPacketView::ForcedDisconnect(packet) => packet.fields(),
            ServerPacketView::UserUpdate(packet) => packet.fields(),
        }
    }

    /// The fields of the packet: the tag, then those of the variant.
    pub open spec fn fields(self) -> Seq<Seq<char>> {
        seq![self.tag()] + self.body()
    }

    /// The line of the packet: its fields with a tab between neighbours.
    pub open spec fn line(self) -> Seq<char> {
        join(self.fields(), '\t')
    }

    /// The packet that the fields of a line hold. The first field is the tag,
    /// which selects the variant that decodes the others.
    pub open spec fn of_fields(parts: Seq<Seq<char>>) -> Result<
        ServerPacketView,
        ParsePacketError,
    > {
        if parts.len() == 0 {
            Err(ParsePacketError::Empty)
        } else {
            let tag = parts[0];
            let body = parts.skip(1);
            if tag == seq!['0'] {
                lift(PongPacketView::of_fields(body), |p| ServerPacketView::Pong(p))
            } else if tag == seq!['1'] {
                lift(JoinAuthPacketView::of_fields(body), |p| ServerPacketView::JoinAuth(p))
            } else if tag == seq!['2'] {
                lift(ChatMessagePacketView::of_fields(body), |p| ServerPacketView::ChatMessage(p))
            } else if tag == seq!['3'] {
                lift(
                    UserDisconnectPacketView::of_fields(body),
                    |p| ServerPacketView::UserDisconnect(p),
                )
            } else if tag == seq!['4'] {
                lift(ChannelEventPacketView::of_fields(body), |p| ServerPacketView::ChannelEvent(p))
            } else if tag == seq!['5'] {
                lift(
                    ChannelSwitchingPacketView::of_fields(body),
                    |p| ServerPacketView::ChannelSwitching(p),
                )
            } else if tag == seq!['6'] {
                lift(
                    MessageDeletionPacketView::of_fields(body),
                    |p| ServerPacketView::MessageDeletion(p),
                )
            } else if tag == seq!['7'] {
                lift(
                    ContextInformationPacketView::of_fields(body),
                    |p| ServerPacketView::ContextInformation(p),
                )
            } else if tag == seq!['8'] {
                lift(
                    ContextClearingPacket::of_fields(body),
                    |p| ServerPacketView::ContextClearing(p),
                )
            } else if tag == seq!['9'] {
                lift(
                    ForcedDisconnectPacket::of_fields(body),
                    |p| ServerPacketView::ForcedDisconnect(p),
                )
            } else if tag == seq!['1', '0'] {
                lift(UserUpdatePacketView::of_fields(body), |p| ServerPacketView::UserUpdate(p))
            } else {
                Err(ParsePacketError::WrongFormat)
            }
        }
    }

    /// The packet that a line holds: that of its fields, which tabs separate.
    pub open spec fn of_line(line: Seq<char>) -> Result<ServerPacketView, ParsePacketError> {
        Self::of_fields(split(line, '\t'))
    }

    /// The number of fields that the variant has which the tag selects, and
    /// the sub-tag and the count where it has them; the tag is counted. `None`
    /// where they select no variant.
    pub open spec fn arity(parts: Seq<Seq<char>>) -> Option<int> {
        if parts.len() == 0 {
            None
        } else {
            let tag = parts[0];
            let body = parts.skip(1);
            if tag == seq!['0'] {
                Some(1 + PongPacketView::arity())
            } else if tag == seq!['1'] {
                more(JoinAuthPacketView::arity(body))
            } else if tag == seq!['2'] {
                Some(1 + ChatMessagePacketView::arity())
            } else if tag == seq!['3'] {
                Some(1 + UserDisconnectPacketView::arity())
            } else if tag == seq!['4'] {
                more(ChannelEventPacketView::arity(body))
            } else if tag == seq!['5'] {
                more(ChannelSwitchingPacketView::arity(body))
            } else if tag == seq!['6'] {
                Some(1 + MessageDeletionPacketView::arity())
            } else if tag == seq!['7'] {
                more(ContextInformationPacketView::arity(body))
            } else if tag == seq!['8'] {
                Some(1 + ContextClearingPacket::arity())
            } else if tag == seq!['9'] {
                Some(1 + ForcedDisconnectPacket::arity())
            } else if tag == seq!['1', '0'] {
                Some(1 + UserUpdatePacketView::arity())
            } else {
                None
            }
        }
    }

    /// The packet is one that a line can hold: a list has the count that it
    /// states, and what is to be cleared has a code.
    pub open spec fn is_valid(self) -> bool {
        match self {
            ServerPacketView::ContextInformation(packet) => packet.is_counted(),
            ServerPacketView::ContextClearing(packet) => packet.is_representable(),
            _ => true,
        }
    }

    /// No text of the packet holds a tab.
    pub open spec fn is_tab_free(self) -> bool {
        match self {
            ServerPacketView::Pong(packet) => packet.is_tab_free(),
            ServerPacketView::JoinAuth(packet) => packet.is_tab_free(),
            ServerPacketView::ChatMessage(packet) => packet.is_tab_free(),
            ServerPacketView::UserDisconnect(packet) => packet.is_tab_free(),
            ServerPacketView::ChannelEvent(packet) => packet.is_tab_free(),
            ServerPacketView::ChannelSwitching(packet) => packet.is_tab_free(),
            ServerPacketView::MessageDeletion(packet) => packet.is_tab_free(),
            ServerPacketView::ContextInformation(packet) => packet.is_tab_free(),
            ServerPacketView::ContextClearing(_) => true,
            ServerPacketView::ForcedDisconnect(_) => true,
            ServerPacketView::UserUpdate(packet) => packet.is_tab_free(),
        }
    }

    /// The fields of a valid packet without tabs decode to the packet.
    pub proof fn lemma_fields(self)
        requires
            self.is_valid(),
            self.is_tab_free(),
        ensures
            Self::of_fields(self.fields()) == Ok::<ServerPacketView, ParsePacketError>(self),
            all_tab_free(self.fields()),
            self.fields().len() > 1,
    {
        let all = self.fields();
        assert(all.skip(1) =~= self.body());
        assert(all[0] == self.tag());
        assert(seq!['0'][0] == '0');
        assert(seq!['1'][0] == '1');
        assert(seq!['2'][0] == '2');
        assert(seq!['3'][0] == '3');
        assert(seq!['4'][0] == '4');
        assert(seq!['5'][0] == '5');
        assert(seq!['6'][0] == '6');
        assert(seq!['7'][0] == '7');
        assert(seq!['8'][0] == '8');
        assert(seq!['9'][0] == '9');
        assert(seq!['1', '0'].len() == 2 && seq!['1', '0'][0] == '1' && seq!['1', '0'][1] == '0');
        match self {
            ServerPacketView::Pong(packet) => packet.lemma_fields(),
            ServerPacketView::JoinAuth(packet) => packet.lemma_fields(),
            ServerPacketView::ChatMessage(packet) => packet.lemma_fields(),
            ServerPacketView::UserDisconnect(packet) => packet.lemma_fields(),
            ServerPacketView::ChannelEvent(packet) => packet.lemma_fields(),
            ServerPacketView::ChannelSwitching(packet) => packet.lemma_fields(),
            ServerPacketView::MessageDeletion(packet) => packet.lemma_fields(),
            ServerPacketView::ContextInformation(packet) => packet.lemma_fields(),
            ServerPacketView::ContextClearing(packet) => packet.lemma_fields(),
            ServerPacketView::ForcedDisconnect(packet) => packet.lemma_fields(),
            ServerPacketView::UserUpdate(packet) => packet.lemma_fields(),
        }
        assert forall|i: int| 0 <= i < all.len() implies tab_free(#[trigger] all[i]) by {
            if i > 0 {
                assert(all[i] == self.body()[i - 1]);
            }
        }
    }

    /// What is decoded from fields without tabs is valid and holds no tab.
    pub proof fn lemma_of_fields(parts: Seq<Seq<char>>)
        requires
            all_tab_free(parts),
        ensures
            Self::of_fields(parts) matches Ok(packet) ==> packet.is_valid() && packet.is_tab_free(),
    {
        if parts.len() > 0 {
            let body = parts.skip(1);
            assert forall|i: int| 0 <= i < body.len() implies tab_free(#[trigger] body[i]) by {
                assert(body[i] == parts[i + 1]);
            }
            PongPacketView::lemma_of_fields(body);
            JoinAuthPacketView::lemma_of_fields(body);
            ChatMessagePacketView::lemma_of_fields(body);
            UserDisconnectPacketView::lemma_of_fields(body);
            ChannelEventPacketView::lemma_of_fields(body);
            ChannelSwitchingPacketView::lemma_of_fields(body);
            MessageDeletionPacketView::lemma_of_fields(body);
            ContextInformationPacketView::lemma_of_fields(body);
            ContextClearingPacket::lemma_decoded_is_representable(body);
            UserUpdatePacketView::lemma_of_fields(body);
        }
    }
}

/// One more than a number of fields, for the tag before them.
pub open spec fn more(n: Option<int>) -> Option<int> {
    match n {
        Some(n) => Some(n + 1),
        None => None,
    }
}

/// Encoding a valid packet without tabs and decoding the line gives the
/// packet back, and so encoding once more gives the same line.
pub proof fn lemma_server_round_trip(packet: ServerPacketView)
    requires
        packet.is_valid(),
        packet.is_tab_free(),
    ensures
        ServerPacketView::of_line(packet.line()) == Ok::<ServerPacketView, ParsePacketError>(
            packet,
        ),
        ServerPacketView::of_line(packet.line())->Ok_0.line() == packet.line(),
{
    packet.lemma_fields();
    lemma_split_join(packet.fields(), '\t', '\t', '\t');
}

/// Whatever a line decodes to is valid, holds no tab, and is what its own
/// line decodes to: decoding, encoding and decoding again changes nothing.
pub proof fn lemma_server_decoding_is_stable(line: Seq<char>)
    ensures
        ServerPacketView::of_line(line) matches Ok(packet) ==> {
            &&& packet.is_valid()
            &&& packet.is_tab_free()
            &&& ServerPacketView::of_line(packet.line()) == Ok::<
                ServerPacketView,
                ParsePacketError,
            >(packet)
        },
{
    lemma_split_free(line, '\t', '\t');
    ServerPacketView::lemma_of_fields(split(line, '\t'));
    if ServerPacketView::of_line(line) is Ok {
        lemma_server_round_trip(ServerPacketView::of_line(line)->Ok_0);
    }
}

/// A line whose number of fields is not that of the variant which its tag,
/// sub-tag and count select is refused as `WrongFormat`, and so is a tag
/// alone; a line that is decoded has that number of fields.
pub proof fn lemma_server_arity(parts: Seq<Seq<char>>)
    ensures
        parts.len() == 1 ==> ServerPacketView::of_fields(parts) == Err::<
            ServerPacketView,
            ParsePacketError,
        >(ParsePacketError::WrongFormat),
        ServerPacketView::of_fields(parts) is Ok ==> ServerPacketView::arity(parts) == Some(
            parts.len() as int,
        ),
        ServerPacketView::arity(parts) matches Some(n) && n != parts.len()
            ==> ServerPacketView::of_fields(parts) == Err::<ServerPacketView, ParsePacketError>(
            ParsePacketError::WrongFormat,
        ),
{
    if parts.len() > 0 {
        let body = parts.skip(1);
        JoinAuthPacketView::lemma_arity(body);
        ChannelEventPacketView::lemma_arity(body);
        ChannelSwitchingPacketView::lemma_arity(body);
        ContextInformationPacketView::lemma_arity(body);
    }
}

impl ServerPacket {
    /// Whether the packet can be encoded: what is to be cleared has a code.
    pub fn is_encodable(&self) -> (b: bool)
        ensures
            b == self.encodable(),
    {
        match self {
            ServerPacket::ContextClearing(packet) => packet.has_code(),
            _ => true,
        }
    }

    /// Whether the packet is one that a line can hold: it can be encoded, and
    /// the count of a list is the number of its records.
    pub fn is_valid(&self) -> (b: bool)
        ensures
            b == self@.is_valid(),
    {
        match self {
            ServerPacket::ContextInformation(packet) => packet.is_counted(),
            ServerPacket::ContextClearing(packet) => packet.has_code(),
            _ => true,
        }
    }

    /// The fields of the packet: its tag, then those of its variant.
    pub fn to_parts(&self) -> (parts: Vec<String>)
        requires
            self.encodable(),
        ensures
            texts(parts@) == self@.fields(),
    {
        proof {
            reveal_strlit("0");
            reveal_strlit("1");
            reveal_strlit("2");
            reveal_strlit("3");
            reveal_strlit("4");
            reveal_strlit("5");
            reveal_strlit("6");
            reveal_strlit("7");
            reveal_strlit("8");
            reveal_strlit("9");
            reveal_strlit("10");
        }
        let (tag, mut parts) = match self {
            ServerPacket::Pong(packet) => ("0", packet.to_parts()),
            ServerPacket::JoinAuth(packet) => ("1", packet.to_parts()),
            ServerPacket::ChatMessage(packet) => ("2", packet.to_parts()),
            ServerPacket::UserDisconnect(packet) => ("3", packet.to_parts()),
            ServerPacket::ChannelEvent(packet) => ("4", packet.to_parts()),
            ServerPacket::ChannelSwitching(packet) => ("5", packet.to_parts()),
            ServerPacket::MessageDeletion(packet) => ("6", packet.to_parts()),
            ServerPacket::ContextInformation(packet) => ("7", packet.to_parts()),
            ServerPacket::ContextClearing(packet) => ("8", packet.to_parts()),
            ServerPacket::ForcedDisconnect(packet) => ("9", packet.to_parts()),
            ServerPacket::UserUpdate(packet) => ("10", packet.to_parts()),
        };
        assert(tag@ =~= self@.tag());
        let ghost body = parts@;
        let first = tag.to_owned();
        parts.insert(0, first);
        assert(texts(parts@) =~= seq![tag@] + texts(body));
        parts
    }
}

impl FromParts for ServerPacket {
    open spec fn of_parts(parts: Seq<Seq<char>>) -> Result<ServerPacketView, ParsePacketError> {
        ServerPacketView::of_fields(parts)
    }

    /// Decodes the fields of a line, the tag first.
    fn from_parts(parts: Vec<String>) -> (r: Result<Self, ParsePacketError>) {
        let mut body = parts;
        if body.len() == 0 {
            return Err(ParsePacketError::Empty);
        }
        let first = body.remove(0);
        let tag = first.as_str();
        proof {
            reveal_strlit("10");
            assert("10"@ =~= seq!['1', '0']);
            assert(texts(parts@)[0] == tag@);
            assert(texts(body@) =~= texts(parts@).skip(1));
        }
        if is_char(tag, '0') {
            match PongPacket::from_parts(body) {
                Ok(packet) => Ok(ServerPacket::Pong(packet)),
                Err(e) => Err(e),
            }
        } else if is_char(tag, '1') {
            match JoinAuthPacket::from_parts(body) {
                Ok(packet) => Ok(ServerPacket::JoinAuth(packet)),
                Err(e) => Err(e),
            }
        } else if is_char(tag, '2') {
            match ChatMessagePacket::from_parts(body) {
                Ok(packet) => Ok(ServerPacket::ChatMessage(packet)),
                Err(e) => Err(e),
            }
        } else if is_char(tag, '3') {
            match UserDisconnectPacket::from_parts(body) {
                Ok(packet) => Ok(ServerPacket::UserDisconnect(packet)),
                Err(e) => Err(e),
            }
        } else if is_char(tag, '4') {
            match ChannelEventPacket::from_parts(body) {
                Ok(packet) => Ok(ServerPacket::ChannelEvent(packet)),
                Err(e) => Err(e),
            }
        } else if is_char(tag, '5') {
            match ChannelSwitchingPacket::from_parts(body) {
                Ok(packet) => Ok(ServerPacket::ChannelSwitching(packet)),
                Err(e) => Err(e),
            }
        } else if is_char(tag, '6') {
            match MessageDeletionPacket::from_parts(body) {
                Ok(packet) => Ok(ServerPacket::MessageDeletion(packet)),
                Err(e) => Err(e),
            }
        } else if is_char(tag, '7') {
            match ContextInformationPacket::from_parts(body) {
                Ok(packet) => Ok(ServerPacket::ContextInformation(packet)),
                Err(e) => Err(e),
            }
        } else if is_char(tag, '8') {
            match ContextClearingPacket::from_parts(body) {
                Ok(packet) => Ok(ServerPacket::ContextClearing(packet)),
                Err(e) => Err(e),
            }
        } else if is_char(tag, '9') {
            match ForcedDisconnectPacket::from_parts(body) {
                Ok(packet) => Ok(ServerPacket::ForcedDisconnect(packet)),
                Err(e) => Err(e),
            }
        } else if same_text(tag, "10") {
            match UserUpdatePacket::from_parts(body) {
                Ok(packet) => Ok(ServerPacket::UserUpdate(packet)),
                Err(e) => Err(e),
            }
        } else {
            Err(ParsePacketError::WrongFormat)
        }
    }
}

impl FromStr for ServerPacket {
    type Err = ParsePacketError;

    /// Decodes a line.
    fn from_str(s: &str) -> (r: Result<Self, Self::Err>)
        ensures
            view_of(r) == ServerPacketView::of_line(s@),
    {
        ServerPacket::from_parts(split_fields(s))
    }
}

impl Sockchatable for ServerPacket {
    open spec fn encodable(&self) -> bool {
        self@ matches ServerPacketView::ContextClearing(packet) ==> packet.is_representable()
    }

    open spec fn wire(&self) -> Seq<char> {
        self@.line()
    }

    fn to_sockstr(&self) -> (s: String) {
        join_fields(&self.to_parts())
    }
}

} // verus!
