//! The authentication of a client.

use crate::packets::types::{FromParts, ParsePacketError, Sockchatable};
use crate::text::{all_tab_free, join, join_fields, tab_free, texts};
use vstd::prelude::*;

verus! {

/// Asks to be let in.
#[derive(Debug, Clone, PartialEq, Eq)]
pub struct AuthenticationPacket {
    pub method: String,
    pub authkey: String,
}

/// The model of a `AuthenticationPacket`.
pub struct AuthenticationPacketView {
    pub method: Seq<char>,
    pub authkey: Seq<char>,
}

impl View for AuthenticationPacket {
    type V = AuthenticationPacketView;

    open spec fn view(&self) -> AuthenticationPacketView {
        AuthenticationPacketView {
            method: self.method@,
            authkey: self.authkey@,
        }
    }
}

impl AuthenticationPacketView {
    /// The fields of the packet, in order.
    pub open spec fn fields(self) -> Seq<Seq<char>> {
        seq![self.method, self.authkey]
    }

    /// The number of fields of the packet.
    pub open spec fn arity() -> int {
        2
    }

    /// The packet that two fields hold. Any other number of fields is refused.
    pub open spec fn of_fields(parts: Seq<Seq<char>>) -> Result<
        AuthenticationPacketView,
        ParsePacketError,
    > {
        if parts.len() != Self::arity() {
            Err(ParsePacketError::WrongFormat)
        } else {
            Ok(AuthenticationPacketView { method: parts[0], authkey: parts[1] })
        }
    }

    /// No text of the packet holds a tab.
    pub open spec fn is_tab_free(self) -> bool {
        tab_free(self.method) && tab_free(self.authkey)
    }

    /// A packet without tabs survives the wire.
    pub proof fn lemma_fields(self)
        requires
            self.is_tab_free(),
        ensures
            Self::of_fields(self.fields()) == Ok::<AuthenticationPacketView, ParsePacketError>(
                self,
            ),
            all_tab_free(self.fields()),
            self.fields().len() == 2,
    {
    }

    /// What is decoded from fields without tabs holds no tab.
    pub proof fn lemma_of_fields(parts: Seq<Seq<char>>)
        requires
            all_tab_free(parts),
        ensures
            Self::of_fields(parts) matches Ok(packet) ==> packet.is_tab_free(),
    {
        if parts.len() == 2 {
            assert(tab_free(parts[0]) && tab_free(parts[1]));
        }
    }
}

impl AuthenticationPacket {
    /// The fields of the packet.
    pub fn to_parts(&self) -> (parts: Vec<String>)
        ensures
            texts(parts@) == self@.fields(),
    {
        let mut parts: Vec<String> = Vec::new();
        parts.push(self.method.clone());
        parts.push(self.authkey.clone());
        assert(texts(parts@) =~= self@.fields());
        parts
    }
}

impl FromParts for AuthenticationPacket {
    open spec fn of_parts(parts: Seq<Seq<char>>) -> Result<
        AuthenticationPacketView,
        ParsePacketError,
    > {
        AuthenticationPacketView::of_fields(parts)
    }

    fn from_parts(parts: Vec<String>) -> (r: Result<Self, ParsePacketError>) {
        if parts.len() != 2 {
            return Err(ParsePacketError::WrongFormat);
        }
        let ghost all = texts(parts@);
        assert(all[0] == parts@[0]@ && all[1] == parts@[1]@);
        Ok(AuthenticationPacket { method: parts[0].clone(), authkey: parts[1].clone() })
    }
}

impl Sockchatable for AuthenticationPacket {
    open spec fn encodable(&self) -> bool {
        true
    }

    open spec fn wire(&self) -> Seq<char> {
        join(self@.fields(), '\t')
    }

    fn to_sockstr(&self) -> (s: String) {
        join_fields(&self.to_parts())
    }
}

} // verus!
