//! The records of the lists that a server sends: users and channels.

use crate::packets::color::Color;
use crate::packets::types::{
    lemma_sockbool, sockbool_of, sockbool_text, view_of, FromParts, ParsePacketError,
    ParseSockBool, Sockchatable, UserPermissions,
};
use crate::text::{all_tab_free, join, join_fields, tab_free, texts};
use std::str::FromStr;
use vstd::prelude::*;

verus! {

/// A user of a channel, as a list of users holds it.
#[derive(Debug, Clone, PartialEq, Eq)]
pub struct UserContext {
    pub user_id: String,
    pub username: String,
    pub color: Color,
    pub user_permissions: UserPermissions,
    pub visible: bool,
}

/// The model of a `UserContext`.
pub struct UserContextView {
    pub user_id: Seq<char>,
    pub username: Seq<char>,
    pub color: Seq<char>,
    pub user_permissions: UserPermissions,
    pub visible: bool,
}

impl View for UserContext {
    type V = UserContextView;

    open spec fn view(&self) -> UserContextView {
        UserContextView {
            user_id: self.user_id@,
            username: self.username@,
            color: self.color@,
            user_permissions: self.user_permissions,
            visible: self.visible,
        }
    }
}

impl UserContextView {
    /// The five fields of the record.
    pub open spec fn fields(self) -> Seq<Seq<char>> {
        seq![
            self.user_id,
            self.username,
            self.color,
            self.user_permissions.text(),
            sockbool_text(self.visible),
        ]
    }

    /// The record that five fields hold.
    pub open spec fn of_fields(parts: Seq<Seq<char>>) -> Result<UserContextView, ParsePacketError> {
        if parts.len() != 5 {
            Err(ParsePacketError::WrongFormat)
        } else {
            match UserPermissions::of_text(parts[3]) {
                Err(e) => Err(e),
                Ok(user_permissions) => match sockbool_of(parts[4]) {
                    Err(e) => Err(e),
                    Ok(visible) => Ok(
                        UserContextView {
                            user_id: parts[0],
                            username: parts[1],
                            color: parts[2],
                            user_permissions,
                            visible,
                        },
                    ),
                },
            }
        }
    }

    /// No text of the record holds a tab.
    pub open spec fn is_tab_free(self) -> bool {
        tab_free(self.user_id) && tab_free(self.username) && tab_free(self.color)
    }

    /// A record without tabs survives the wire.
    pub proof fn lemma_fields(self)
        requires
            self.is_tab_free(),
        ensures
            Self::of_fields(self.fields()) == Ok::<UserContextView, ParsePacketError>(self),
            all_tab_free(self.fields()),
            self.fields().len() == 5,
    {
        self.user_permissions.lemma_text();
        lemma_sockbool(self.visible);
    }

    /// What is decoded from fields without tabs holds no tab.
    pub proof fn lemma_of_fields(parts: Seq<Seq<char>>)
        requires
            all_tab_free(parts),
        ensures
            Self::of_fields(parts) matches Ok(user) ==> user.is_tab_free(),
    {
        if parts.len() == 5 {
            assert(tab_free(parts[0]) && tab_free(parts[1]) && tab_free(parts[2]));
        }
    }
}

impl UserContext {
    /// The record that stands in `parts` from index `at` on.
    pub(crate) fn decode_at(parts: &Vec<String>, at: usize) -> (r: Result<
        UserContext,
        ParsePacketError,
    >)
        requires
            at + 5 <= parts@.len(),
        ensures
            view_of(r) == UserContextView::of_fields(texts(parts@).subrange(at as int, at + 5)),
    {
        let total = parts.len();
        let ghost group = texts(parts@).subrange(at as int, at + 5);
        assert(group[0] == parts@[at as int]@ && group[1] == parts@[at + 1]@ && group[2]
            == parts@[at + 2]@ && group[3] == parts@[at + 3]@ && group[4] == parts@[at + 4]@);
        let color = Color::from_str(parts[at + 2].as_str())?;
        let user_permissions = UserPermissions::from_str(parts[at + 3].as_str())?;
        let visible = parts[at + 4].parse_sockbool()?;
        Ok(
            UserContext {
                user_id: parts[at].clone(),
                username: parts[at + 1].clone(),
                color,
                user_permissions,
                visible,
            },
        )
    }

    /// The fields of the record.
    pub fn to_parts(&self) -> (parts: Vec<String>)
        ensures
            texts(parts@) == self@.fields(),
    {
        let mut parts: Vec<String> = Vec::new();
        parts.push(self.user_id.clone());
        parts.push(self.username.clone());
        parts.push(self.color.to_sockstr());
        parts.push(self.user_permissions.to_sockstr());
        parts.push(self.visible.to_sockstr());
        assert(texts(parts@) =~= self@.fields());
        parts
    }
}

impl FromParts for UserContext {
    open spec fn of_parts(parts: Seq<Seq<char>>) -> Result<UserContextView, ParsePacketError> {
        UserContextView::of_fields(parts)
    }

    fn from_parts(parts: Vec<String>) -> (r: Result<Self, ParsePacketError>) {
        if parts.len() != 5 {
            return Err(ParsePacketError::WrongFormat);
        }
        assert(texts(parts@).subrange(0, 5) =~= texts(parts@));
        UserContext::decode_at(&parts, 0)
    }
}

impl Sockchatable for UserContext {
    open spec fn encodable(&self) -> bool {
        true
    }

    open spec fn wire(&self) -> Seq<char> {
        join(self@.fields(), '\t')
    }

    fn to_sockstr(&self) -> (s: String) {
        join_fields(&self.to_parts())
    }
}

impl Default for UserContext {
    fn default() -> (r: Self)
        ensures
            r@ == (UserContextView {
                user_id: "default_user_id"@,
                username: "default_username"@,
                color: "FFF"@,
                user_permissions: UserPermissions {
                    rank: 0,
                    can_moderate: false,
                    can_logs: false,
                    can_nickname: false,
                    channel_permissions: 0,
                },
                visible: false,
            }),
    {
        UserContext {
            user_id: "default_user_id".to_owned(),
            username: "default_username".to_owned(),
            color: Color::default(),
            user_permissions: UserPermissions::default(),
            visible: false,
        }
    }
}

/// A channel, as a list of channels holds it.
#[derive(Debug, Clone, PartialEq, Eq)]
pub struct ChannelContext {
    pub channel_name: String,
    pub password_protected: bool,
    pub temporary: bool,
}

/// The model of a `ChannelContext`.
pub struct ChannelContextView {
    pub channel_name: Seq<char>,
    pub password_protected: bool,
    pub temporary: bool,
}

impl View for ChannelContext {
    type V = ChannelContextView;

    open spec fn view(&self) -> ChannelContextView {
        ChannelContextView {
            channel_name: self.channel_name@,
            password_protected: self.password_protected,
            temporary: self.temporary,
        }
    }
}

impl ChannelContextView {
    /// The three fields of the record.
    pub open spec fn fields(self) -> Seq<Seq<char>> {
        seq![
            self.channel_name,
            sockbool_text(self.password_protected),
            sockbool_text(self.temporary),
        ]
    }

    /// The record that three fields hold.
    pub open spec fn of_fields(parts: Seq<Seq<char>>) -> Result<
        ChannelContextView,
        ParsePacketError,
    > {
        if parts.len() != 3 {
            Err(ParsePacketError::WrongFormat)
        } else {
            match sockbool_of(parts[1]) {
                Err(e) => Err(e),
                Ok(password_protected) => match sockbool_of(parts[2]) {
                    Err(e) => Err(e),
                    Ok(temporary) => Ok(
                        ChannelContextView {
                            channel_name: parts[0],
                            password_protected,
                            temporary,
                        },
                    ),
                },
            }
        }
    }

    /// No text of the record holds a tab.
    pub open spec fn is_tab_free(self) -> bool {
        tab_free(self.channel_name)
    }

    /// A record without tabs survives the wire.
    pub proof fn lemma_fields(self)
        requires
            self.is_tab_free(),
        ensures
            Self::of_fields(self.fields()) == Ok::<ChannelContextView, ParsePacketError>(self),
            all_tab_free(self.fields()),
            self.fields().len() == 3,
    {
        lemma_sockbool(self.password_protected);
        lemma_sockbool(self.temporary);
    }

    /// What is decoded from fields without tabs holds no tab.
    pub proof fn lemma_of_fields(parts: Seq<Seq<char>>)
        requires
            all_tab_free(parts),
        ensures
            Self::of_fields(parts) matches Ok(channel) ==> channel.is_tab_free(),
    {
        if parts.len() == 3 {
            assert(tab_free(parts[0]));
        }
    }
}

impl ChannelContext {
    /// The record that stands in `parts` from index `at` on.
    pub(crate) fn decode_at(parts: &Vec<String>, at: usize) -> (r: Result<
        ChannelContext,
        ParsePacketError,
    >)
        requires
            at + 3 <= parts@.len(),
        ensures
            view_of(r) == ChannelContextView::of_fields(
                texts(parts@).subrange(at as int, at + 3),
            ),
    {
        let total = parts.len();
        let ghost group = texts(parts@).subrange(at as int, at + 3);
        assert(group[0] == parts@[at as int]@ && group[1] == parts@[at + 1]@ && group[2]
            == parts@[at + 2]@);
        let password_protected = parts[at + 1].parse_sockbool()?;
        let temporary = parts[at + 2].parse_sockbool()?;
        Ok(ChannelContext { channel_name: parts[at].clone(), password_protected, temporary })
    }

    /// The fields of the record.
    pub fn to_parts(&self) -> (parts: Vec<String>)
        ensures
            texts(parts@) == self@.fields(),
    {
        let mut parts: Vec<String> = Vec::new();
        parts.push(self.channel_name.clone());
        parts.push(self.password_protected.to_sockstr());
        parts.push(self.temporary.to_sockstr());
        assert(texts(parts@) =~= self@.fields());
        parts
    }
}

impl FromParts for ChannelContext {
    open spec fn of_parts(parts: Seq<Seq<char>>) -> Result<ChannelContextView, ParsePacketError> {
        ChannelContextView::of_fields(parts)
    }

    fn from_parts(parts: Vec<String>) -> (r: Result<Self, ParsePacketError>) {
        if parts.len() != 3 {
            return Err(ParsePacketError::WrongFormat);
        }
        assert(texts(parts@).subrange(0, 3) =~= texts(parts@));
        ChannelContext::decode_at(&parts, 0)
    }
}

impl Sockchatable for ChannelContext {
    open spec fn encodable(&self) -> bool {
        true
    }

    open spec fn wire(&self) -> Seq<char> {
        join(self@.fields(), '\t')
    }

    fn to_sockstr(&self) -> (s: String) {
        join_fields(&self.to_parts())
    }
}

impl Default for ChannelContext {
    fn default() -> (r: Self)
        ensures
            r@ == (ChannelContextView {
                channel_name: "default_channel_name"@,
                password_protected: false,
                temporary: false,
            }),
    {
        ChannelContext {
            channel_name: "default_channel_name".to_owned(),
            password_protected: false,
            temporary: false,
        }
    }
}

} // verus!
