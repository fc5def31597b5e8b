//! The packets that a client sends.

pub mod authentication;
pub mod message;
pub mod ping;

pub use authentication::{AuthenticationPacket, AuthenticationPacketView};
pub use message::{MessagePacket, MessagePacketView};
pub use ping::{PingPacket, PingPacketView};

use crate::packets::types::{lift, view_of, FromParts, ParsePacketError, Sockchatable};
use crate::text::{
    all_tab_free, is_char, join, join_fields, lemma_split_free, lemma_split_join, split,
    split_fields, tab_free, texts,
};
use std::str::FromStr;
use vstd::prelude::*;

verus! {

/// A packet of a client.
#[derive(Debug, Clone, PartialEq, Eq)]
pub enum ClientPacket {
    Ping(PingPacket),
    Authentication(AuthenticationPacket),
    Message(MessagePacket),
}

/// The model of a `ClientPacket`.
pub enum ClientPacketView {
    Ping(PingPacketView),
    Authentication(AuthenticationPacketView),
    Message(MessagePacketView),
}

impl View for ClientPacket {
    type V = ClientPacketView;

    open spec fn view(&self) -> ClientPacketView {
        match self {
            ClientPacket::Ping(packet) => ClientPacketView::Ping(packet@),
            ClientPacket::Authentication(packet) => ClientPacketView::Authentication(packet@),
            ClientPacket::Message(packet) => ClientPacketView::Message(packet@),
        }
    }
}

impl ClientPacketView {
    /// The tag of the variant.
    pub open spec fn tag(self) -> Seq<char> {
        match self {
            ClientPacketView::Ping(_) => seq!['0'],
            ClientPacketView::Authentication(_) => seq!['1'],
            ClientPacketView::Message(_) => seq!['2'],
        }
    }

    /// The fields of the variant, which follow the tag.
    pub open spec fn body(self) -> Seq<Seq<char>> {
        match self {
            ClientPacketView::Ping(packet) => packet.fields(),
            ClientPacketView::Authentication(packet) => packet.fields(),
            ClientPacketView::Message(packet) => packet.fields(),
        }
    }

    /// The fields of the packet: the tag, then those of the variant.
    pub open spec fn fields(self) -> Seq<Seq<char>> {
        seq![self.tag()] + self.body()
    }

    /// The line of the packet: its fields with a tab between neighbours.
    pub open spec fn line(self) -> Seq<char> {
        join(self.fields(), '\t')
    }

    /// The packet that the fields of a line hold. The first field is the tag,
    /// which selects the variant that decodes the others.
    pub open spec fn of_fields(parts: Seq<Seq<char>>) -> Result<
        ClientPacketView,
        ParsePacketError,
    > {
        if parts.len() == 0 {
            Err(ParsePacketError::Empty)
        } else {
            let tag = parts[0];
            let body = parts.skip(1);
            if tag == seq!['0'] {
                lift(PingPacketView::of_fields(body), |p| ClientPacketView::Ping(p))
            } else if tag == seq!['1'] {
                lift(
                    AuthenticationPacketView::of_fields(body),
                    |p| ClientPacketView::Authentication(p),
                )
            } else if tag == seq!['2'] {
                lift(MessagePacketView::of_fields(body), |p| ClientPacketView::Message(p))
            } else {
                Err(ParsePacketError::WrongFormat)
            }
        }
    }

    /// The packet that a line holds: that of its fields, which tabs separate.
    pub open spec fn of_line(line: Seq<char>) -> Result<ClientPacketView, ParsePacketError> {
        Self::of_fields(split(line, '\t'))
    }

    /// The number of fields that the variant has which the tag selects, the
    /// tag counted. `None` where it selects no variant.
    pub open spec fn arity(parts: Seq<Seq<char>>) -> Option<int> {
        if parts.len() == 0 {
            None
        } else if parts[0] == seq!['0'] {
            Some(1 + PingPacketView::arity())
        } else if parts[0] == seq!['1'] {
            Some(1 + AuthenticationPacketView::arity())
        } else if parts[0] == seq!['2'] {
            Some(1 + MessagePacketView::arity())
        } else {
            None
        }
    }

    /// No text of the packet holds a tab.
    pub open spec fn is_tab_free(self) -> bool {
        match self {
            ClientPacketView::Ping(packet) => packet.is_tab_free(),
            ClientPacketView::Authentication(packet) => packet.is_tab_free(),
            ClientPacketView::Message(packet) => packet.is_tab_free(),
        }
    }

    /// The fields of a packet without tabs decode to the packet.
    pub proof fn lemma_fields(self)
        requires
            self.is_tab_free(),
        ensures
            Self::of_fields(self.fields()) == Ok::<ClientPacketView, ParsePacketError>(self),
            all_tab_free(self.fields()),
            self.fields().len() > 1,
    {
        let all = self.fields();
        assert(all.skip(1) =~= self.body());
        assert(all[0] == self.tag());
        assert(seq!['0'][0] == '0');
        assert(seq!['1'][0] == '1');
        assert(seq!['2'][0] == '2');
        match self {
            ClientPacketView::Ping(packet) => packet.lemma_fields(),
            ClientPacketView::Authentication(packet) => packet.lemma_fields(),
            ClientPacketView::Message(packet) => packet.lemma_fields(),
        }
        assert forall|i: int| 0 <= i < all.len() implies tab_free(#[trigger] all[i]) by {
            if i > 0 {
                assert(all[i] == self.body()[i - 1]);
            }
        }
    }

    /// What is decoded from fields without tabs holds no tab.
    pub proof fn lemma_of_fields(parts: Seq<Seq<char>>)
        requires
            all_tab_free(parts),
        ensures
            Self::of_fields(parts) matches Ok(packet) ==> packet.is_tab_free(),
    {
        if parts.len() > 0 {
            let body = parts.skip(1);
            assert forall|i: int| 0 <= i < body.len() implies tab_free(#[trigger] body[i]) by {
                assert(body[i] == parts[i + 1]);
            }
            PingPacketView::lemma_of_fields(body);
            AuthenticationPacketView::lemma_of_fields(body);
            MessagePacketView::lemma_of_fields(body);
        }
    }
}

/// Encoding a packet without tabs and decoding the line gives the packet
/// back, and so encoding once more gives the same line.
pub proof fn lemma_client_round_trip(packet: ClientPacketView)
    requires
        packet.is_tab_free(),
    ensures
        ClientPacketView::of_line(packet.line()) == Ok::<ClientPacketView, ParsePacketError>(
            packet,
        ),
        ClientPacketView::of_line(packet.line())->Ok_0.line() == packet.line(),
{
    packet.lemma_fields();
    lemma_split_join(packet.fields(), '\t', '\t', '\t');
}

/// Whatever a line decodes to holds no tab, and is what its own line decodes
/// to: decoding, encoding and decoding again changes nothing.
pub proof fn lemma_client_decoding_is_stable(line: Seq<char>)
    ensures
        ClientPacketView::of_line(line) matches Ok(packet) ==> {
            &&& packet.is_tab_free()
            &&& ClientPacketView::of_line(packet.line()) == Ok::<
                ClientPacketView,
                ParsePacketError,
            >(packet)
        },
{
    lemma_split_free(line, '\t', '\t');
    ClientPacketView::lemma_of_fields(split(line, '\t'));
    if ClientPacketView::of_line(line) is Ok {
        lemma_client_round_trip(ClientPacketView::of_line(line)->Ok_0);
    }
}

/// A line whose number of fields is not that of the variant which its tag
/// selects is refused as `WrongFormat`, and so is a tag alone; a line that is
/// decoded has that number of fields.
pub proof fn lemma_client_arity(parts: Seq<Seq<char>>)
    ensures
        parts.len() == 1 ==> ClientPacketView::of_fields(parts) == Err::<
            ClientPacketView,
            ParsePacketError,
        >(ParsePacketError::WrongFormat),
        ClientPacketView::of_fields(parts) is Ok ==> ClientPacketView::arity(parts) == Some(
            parts.len() as int,
        ),
        ClientPacketView::arity(parts) matches Some(n) && n != parts.len()
            ==> ClientPacketView::of_fields(parts) == Err::<ClientPacketView, ParsePacketError>(
            ParsePacketError::WrongFormat,
        ),
{
}

impl ClientPacket {
    /// The fields of the packet: its tag, then those of its variant.
    pub fn to_parts(&self) -> (parts: Vec<String>)
        ensures
            texts(parts@) == self@.fields(),
    {
        proof {
            reveal_strlit("0");
            reveal_strlit("1");
            reveal_strlit("2");
        }
        let (tag, mut parts) = match self {
            ClientPacket::Ping(packet) => ("0", packet.to_parts()),
            ClientPacket::Authentication(packet) => ("1", packet.to_parts()),
            ClientPacket::Message(packet) => ("2", packet.to_parts()),
        };
        assert(tag@ =~= self@.tag());
        let ghost body = parts@;
        let first = tag.to_owned();
        parts.insert(0, first);
        assert(texts(parts@) =~= seq![tag@] + texts(body));
        parts
    }
}

impl FromParts for ClientPacket {
    open spec fn of_parts(parts: Seq<Seq<char>>) -> Result<ClientPacketView, ParsePacketError> {
        ClientPacketView::of_fields(parts)
    }

    /// Decodes the fields of a line, the tag first.
    fn from_parts(parts: Vec<String>) -> (r: Result<Self, ParsePacketError>) {
        let mut body = parts;
        if body.len() == 0 {
            return Err(ParsePacketError::Empty);
        }
        let first = body.remove(0);
        let tag = first.as_str();
        proof {
            assert(texts(parts@)[0] == tag@);
            assert(texts(body@) =~= texts(parts@).skip(1));
        }
        if is_char(tag, '0') {
            match PingPacket::from_parts(body) {
                Ok(packet) => Ok(ClientPacket::Ping(packet)),
                Err(e) => Err(e),
            }
        } else if is_char(tag, '1') {
            match AuthenticationPacket::from_parts(body) {
                Ok(packet) => Ok(ClientPacket::Authentication(packet)),
                Err(e) => Err(e),
            }
        } else if is_char(tag, '2') {
            match MessagePacket::from_parts(body) {
                Ok(packet) => Ok(ClientPacket::Message(packet)),
                Err(e) => Err(e),
            }
        } else {
            Err(ParsePacketError::WrongFormat)
        }
    }
}

impl FromStr for ClientPacket {
    type Err = ParsePacketError;

    /// Decodes a line.
    fn from_str(s: &str) -> (r: Result<Self, Self::Err>)
        ensures
            view_of(r) == ClientPacketView::of_line(s@),
    {
        ClientPacket::from_parts(split_fields(s))
    }
}

impl Sockchatable for ClientPacket {
    open spec fn encodable(&self) -> bool {
        true
    }

    open spec fn wire(&self) -> Seq<char> {
        self@.line()
    }

    fn to_sockstr(&self) -> (s: String) {
        join_fields(&self.to_parts())
    }
}

} // verus!
