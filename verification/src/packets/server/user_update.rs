//! A change of a user.

use crate::packets::types::{Color, FromParts, ParsePacketError, Sockchatable, UserPermissions};
use crate::text::{all_tab_free, join, join_fields, tab_free, texts};
use std::str::FromStr;
use vstd::prelude::*;

verus! {

/// A user changed.
#[derive(Debug, Clone, PartialEq, Eq)]
pub struct UserUpdatePacket {
    pub user_id: String,
    pub username: String,
    pub color: Color,
    pub user_permissions: UserPermissions,
}

/// The model of a `UserUpdatePacket`.
pub struct UserUpdatePacketView {
    pub user_id: Seq<char>,
    pub username: Seq<char>,
    pub color: Seq<char>,
    pub user_permissions: UserPermissions,
}

impl View for UserUpdatePacket {
    type V = UserUpdatePacketView;

    open spec fn view(&self) -> UserUpdatePacketView {
        UserUpdatePacketView {
            user_id: self.user_id@,
            username: self.username@,
            color: self.color@,
            user_permissions: self.user_permissions,
        }
    }
}

impl UserUpdatePacketView {
    /// The fields of the packet, in order.
    pub open spec fn fields(self) -> Seq<Seq<char>> {
        seq![self.user_id, self.username, self.color, self.user_permissions.text()]
    }

    /// The number of fields of the packet.
    pub open spec fn arity() -> int {
        4
    }

    /// The packet that four fields hold. Any other number of fields is refused.
    pub open spec fn of_fields(parts: Seq<Seq<char>>) -> Result<
        UserUpdatePacketView,
        ParsePacketError,
    > {
        if parts.len() != Self::arity() {
            Err(ParsePacketError::WrongFormat)
        } else {
            match UserPermissions::of_text(parts[3]) {
                Err(e) => Err(e),
                Ok(user_permissions) => Ok(
                    UserUpdatePacketView {
                        user_id: parts[0],
                        username: parts[1],
                        color: parts[2],
                        user_permissions,
                    },
                ),
            }
        }
    }

    /// No text of the packet holds a tab.
    pub open spec fn is_tab_free(self) -> bool {
        tab_free(self.user_id) && tab_free(self.username) && tab_free(self.color)
    }

    /// A packet without tabs survives the wire.
    pub proof fn lemma_fields(self)
        requires
            self.is_tab_free(),
        ensures
            Self::of_fields(self.fields()) == Ok::<UserUpdatePacketView, ParsePacketError>(self),
            all_tab_free(self.fields()),
            self.fields().len() == 4,
    {
        self.user_permissions.lemma_text();
    }

    /// What is decoded from fields without tabs holds no tab.
    pub proof fn lemma_of_fields(parts: Seq<Seq<char>>)
        requires
            all_tab_free(parts),
        ensures
            Self::of_fields(parts) matches Ok(packet) ==> packet.is_tab_free(),
    {
        if parts.len() == 4 {
            assert(tab_free(parts[0]) && tab_free(parts[1]) && tab_free(parts[2]));
        }
    }
}

impl UserUpdatePacket {
    /// The fields of the packet.
    pub fn to_parts(&self) -> (parts: Vec<String>)
        ensures
            texts(parts@) == self@.fields(),
    {
        let mut parts: Vec<String> = Vec::new();
        parts.push(self.user_id.clone());
        parts.push(self.username.clone());
        parts.push(self.color.to_sockstr());
        parts.push(self.user_permissions.to_sockstr());
        assert(texts(parts@) =~= self@.fields());
        parts
    }
}

impl FromParts for UserUpdatePacket {
    open spec fn of_parts(parts: Seq<Seq<char>>) -> Result<UserUpdatePacketView, ParsePacketError> {
        UserUpdatePacketView::of_fields(parts)
    }

    fn from_parts(parts: Vec<String>) -> (r: Result<Self, ParsePacketError>) {
        if parts.len() != 4 {
            return Err(ParsePacketError::WrongFormat);
        }
        let ghost all = texts(parts@);
        assert(all[0] == parts@[0]@
            && all[1] == parts@[1]@
            && all[2] == parts@[2]@
            && all[3] == parts@[3]@);
        let color = Color::from_str(parts[2].as_str())?;
        let user_permissions = UserPermissions::from_str(parts[3].as_str())?;
        Ok(
            UserUpdatePacket {
                user_id: parts[0].clone(),
                username: parts[1].clone(),
                color,
                user_permissions,
            },
        )
    }
}

impl Sockchatable for UserUpdatePacket {
    open spec fn encodable(&self) -> bool {
        true
    }

    open spec fn wire(&self) -> Seq<char> {
        join(self@.fields(), '\t')
    }

    fn to_sockstr(&self) -> (s: String) {
        join_fields(&self.to_parts())
    }
}

} // verus!
