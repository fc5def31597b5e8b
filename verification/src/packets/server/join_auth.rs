//! Authentication answers and arrivals, which share a tag.

use crate::number::{format_i64, signed_decimal};
use crate::packets::types::{
    decode_i64, i64_field, lemma_i64_field, BadAuthReason, Color, FromParts, ParsePacketError,
    Sockchatable, UserPermissions,
};
use crate::text::{all_tab_free, is_char, join, join_fields, tab_free, texts};
use std::str::FromStr;
use vstd::prelude::*;

verus! {

/// The answer to an authentication, or the arrival of a user.
#[derive(Debug, Clone, PartialEq, Eq)]
pub enum JoinAuthPacket {
    GoodAuth {
        user_id: String,
        username: String,
        color: Color,
        user_permissions: UserPermissions,
        channel_name: String,
        max_msg_length: i64,
    },
    BadAuth { reason: BadAuthReason, timestamp: i64 },
    Join {
        timestamp: i64,
        user_id: String,
        username: String,
        color: Color,
        user_permissions: UserPermissions,
        sequence_id: String,
    },
}

/// The model of a `JoinAuthPacket`.
pub enum JoinAuthPacketView {
    GoodAuth {
        user_id: Seq<char>,
        username: Seq<char>,
        color: Seq<char>,
        user_permissions: UserPermissions,
        channel_name: Seq<char>,
        max_msg_length: i64,
    },
    BadAuth { reason: BadAuthReason, timestamp: i64 },
    Join {
        timestamp: i64,
        user_id: Seq<char>,
        username: Seq<char>,
        color: Seq<char>,
        user_permissions: UserPermissions,
        sequence_id: Seq<char>,
    },
}

impl View for JoinAuthPacket {
    type V = JoinAuthPacketView;

    open spec fn view(&self) -> JoinAuthPacketView {
        match self {
            JoinAuthPacket::GoodAuth {
                user_id,
                username,
                color,
                user_permissions,
                channel_name,
                max_msg_length,
            } => JoinAuthPacketView::GoodAuth {
                user_id: user_id@,
                username: username@,
                color: color@,
                user_permissions: *user_permissions,
                channel_name: channel_name@,
                max_msg_length: *max_msg_length,
            },
            JoinAuthPacket::BadAuth { reason, timestamp } => JoinAuthPacketView::BadAuth {
                reason: *reason,
                timestamp: *timestamp,
            },
            JoinAuthPacket::Join {
                timestamp,
                user_id,
                username,
                color,
                user_permissions,
                sequence_id,
            } => JoinAuthPacketView::Join {
                timestamp: *timestamp,
                user_id: user_id@,
                username: username@,
                color: color@,
                user_permissions: *user_permissions,
                sequence_id: sequence_id@,
            },
        }
    }
}

impl JoinAuthPacketView {
    /// The fields of the packet: the marker `y` or `n` and those of the variant, or those of an
    /// arrival alone.
    pub open spec fn fields(self) -> Seq<Seq<char>> {
        match self {
            JoinAuthPacketView::GoodAuth {
                user_id,
                username,
                color,
                user_permissions,
                channel_name,
                max_msg_length,
            } => seq![
                seq!['y'],
                user_id,
                username,
                color,
                user_permissions.text(),
                channel_name,
                signed_decimal(max_msg_length as int),
            ],
            JoinAuthPacketView::BadAuth { reason, timestamp } => seq![
                seq!['n'],
                reason.text(),
                signed_decimal(timestamp as int),
            ],
            JoinAuthPacketView::Join {
                timestamp,
                user_id,
                username,
                color,
                user_permissions,
                sequence_id,
            } => seq![
                signed_decimal(timestamp as int),
                user_id,
                username,
                color,
                user_permissions.text(),
                sequence_id,
            ],
        }
    }

    /// The number of fields of the variant that the first field selects, that field counted.
    pub open spec fn arity(parts: Seq<Seq<char>>) -> Option<int> {
        if parts.len() == 0 {
            None
        } else if parts[0] == seq!['y'] {
            Some(7)
        } else if parts[0] == seq!['n'] {
            Some(3)
        } else {
            Some(6)
        }
    }

    /// The accepted authentication that seven fields hold, the marker `y` first.
    pub open spec fn good_auth_of_fields(parts: Seq<Seq<char>>) -> Result<
        JoinAuthPacketView,
        ParsePacketError,
    > {
        if parts.len() != 7 {
            Err(ParsePacketError::WrongFormat)
        } else {
            match UserPermissions::of_text(parts[4]) {
                Err(e) => Err(e),
                Ok(user_permissions) => match i64_field(parts[6]) {
                    Err(e) => Err(e),
                    Ok(max_msg_length) => Ok(
                        JoinAuthPacketView::GoodAuth {
                            user_id: parts[1],
                            username: parts[2],
                            color: parts[3],
                            user_permissions,
                            channel_name: parts[5],
                            max_msg_length,
                        },
                    ),
                },
            }
        }
    }

    /// The refused authentication that three fields hold, the marker `n` first.
    pub open spec fn bad_auth_of_fields(parts: Seq<Seq<char>>) -> Result<
        JoinAuthPacketView,
        ParsePacketError,
    > {
        if parts.len() != 3 {
            Err(ParsePacketError::WrongFormat)
        } else {
            match BadAuthReason::of_text(parts[1]) {
                Err(e) => Err(e),
                Ok(reason) => match i64_field(parts[2]) {
                    Err(e) => Err(e),
                    Ok(timestamp) => Ok(JoinAuthPacketView::BadAuth { reason, timestamp }),
                },
            }
        }
    }

    /// The arrival of a user that six fields hold. It has no marker: the first field is its
    /// timestamp.
    pub open spec fn join_of_fields(parts: Seq<Seq<char>>) -> Result<
        JoinAuthPacketView,
        ParsePacketError,
    > {
        if parts.len() != 6 {
            Err(ParsePacketError::WrongFormat)
        } else {
            match i64_field(parts[0]) {
                Err(e) => Err(e),
                Ok(timestamp) => match UserPermissions::of_text(parts[4]) {
                    Err(e) => Err(e),
                    Ok(user_permissions) => Ok(
                        JoinAuthPacketView::Join {
                            timestamp,
                            user_id: parts[1],
                            username: parts[2],
                            color: parts[3],
                            user_permissions,
                            sequence_id: parts[5],
                        },
                    ),
                },
            }
        }
    }

    /// The packet that the fields after the tag hold. The first field is the marker `y` or `n`;
    /// any other first field begins an arrival.
    pub open spec fn of_fields(parts: Seq<Seq<char>>) -> Result<
        JoinAuthPacketView,
        ParsePacketError,
    > {
        if parts.len() == 0 {
            Err(ParsePacketError::WrongFormat)
        } else if parts[0] == seq!['y'] {
            Self::good_auth_of_fields(parts)
        } else if parts[0] == seq!['n'] {
            Self::bad_auth_of_fields(parts)
        } else {
            Self::join_of_fields(parts)
        }
    }

    /// No text of the packet holds a tab.
    pub open spec fn is_tab_free(self) -> bool {
        match self {
            JoinAuthPacketView::GoodAuth { user_id, username, color, channel_name, .. } => {
                tab_free(user_id) && tab_free(username) && tab_free(color) && tab_free(channel_name)
            },
            JoinAuthPacketView::BadAuth { .. } => true,
            JoinAuthPacketView::Join { user_id, username, color, sequence_id, .. } => {
                tab_free(user_id) && tab_free(username) && tab_free(color) && tab_free(sequence_id)
            },
        }
    }

    /// A packet without tabs survives the wire.
    pub proof fn lemma_fields(self)
        requires
            self.is_tab_free(),
        ensures
            Self::of_fields(self.fields()) == Ok::<JoinAuthPacketView, ParsePacketError>(self),
            all_tab_free(self.fields()),
            self.fields().len() > 0,
    {
        assert(seq!['y'][0] == 'y');
        assert(seq!['n'][0] == 'n');
        match self {
            JoinAuthPacketView::GoodAuth { user_permissions, max_msg_length, .. } => {
                user_permissions.lemma_text();
                lemma_i64_field(max_msg_length);
            },
            JoinAuthPacketView::BadAuth { reason, timestamp } => {
                reason.lemma_text();
                lemma_i64_field(timestamp);
            },
            JoinAuthPacketView::Join { timestamp, user_permissions, .. } => {
                lemma_i64_field(timestamp);
                user_permissions.lemma_text();
            },
        }
    }

    /// What is decoded from fields without tabs holds no tab.
    pub proof fn lemma_of_fields(parts: Seq<Seq<char>>)
        requires
            all_tab_free(parts),
        ensures
            Self::of_fields(parts) matches Ok(packet) ==> packet.is_tab_free(),
    {
        assert forall|i: int| 0 <= i < parts.len() implies tab_free(#[trigger] parts[i]) by {}
    }

    /// A number of fields that the selected variant does not have is refused.
    pub proof fn lemma_arity(parts: Seq<Seq<char>>)
        ensures
            Self::of_fields(parts) is Ok ==> Self::arity(parts) == Some(parts.len() as int),
            Self::arity(parts) matches Some(n) && n != parts.len() ==> Self::of_fields(parts)
                == Err::<JoinAuthPacketView, ParsePacketError>(
                ParsePacketError::WrongFormat,
            ),
    {
    }
}

impl JoinAuthPacket {
    /// The fields of the packet.
    pub fn to_parts(&self) -> (parts: Vec<String>)
        ensures
            texts(parts@) == self@.fields(),
    {
        let mut parts: Vec<String> = Vec::new();
        proof {
            reveal_strlit("y");
            reveal_strlit("n");
            assert("y"@ =~= seq!['y']);
            assert("n"@ =~= seq!['n']);
        }
        match self {
            Self::GoodAuth {
                user_id,
                username,
                color,
                user_permissions,
                channel_name,
                max_msg_length,
            } => {
                parts.push("y".to_owned());
                parts.push(user_id.clone());
                parts.push(username.clone());
                parts.push(color.to_sockstr());
                parts.push(user_permissions.to_sockstr());
                parts.push(channel_name.clone());
                parts.push(format_i64(*max_msg_length));
                assert(texts(parts@) =~= self@.fields());
            },
            Self::BadAuth { reason, timestamp } => {
                parts.push("n".to_owned());
                parts.push(reason.to_sockstr());
                parts.push(format_i64(*timestamp));
                assert(texts(parts@) =~= self@.fields());
            },
            Self::Join {
                timestamp,
                user_id,
                username,
                color,
                user_permissions,
                sequence_id,
            } => {
                parts.push(format_i64(*timestamp));
                parts.push(user_id.clone());
                parts.push(username.clone());
                parts.push(color.to_sockstr());
                parts.push(user_permissions.to_sockstr());
                parts.push(sequence_id.clone());
                assert(texts(parts@) =~= self@.fields());
            },
        }
        parts
    }
}

impl FromParts for JoinAuthPacket {
    open spec fn of_parts(parts: Seq<Seq<char>>) -> Result<JoinAuthPacketView, ParsePacketError> {
        JoinAuthPacketView::of_fields(parts)
    }

    fn from_parts(parts: Vec<String>) -> (r: Result<Self, ParsePacketError>) {
        let total = parts.len();
        if total == 0 {
            return Err(ParsePacketError::WrongFormat);
        }
        let ghost all = texts(parts@);
        assert(all[0] == parts@[0]@);
        if is_char(parts[0].as_str(), 'y') {
            if total != 7 {
                return Err(ParsePacketError::WrongFormat);
            }
            assert(all[1] == parts@[1]@
                && all[2] == parts@[2]@
                && all[3] == parts@[3]@
                && all[4] == parts@[4]@
                && all[5] == parts@[5]@
                && all[6] == parts@[6]@);
            let color = Color::from_str(parts[3].as_str())?;
            let user_permissions = UserPermissions::from_str(parts[4].as_str())?;
            let max_msg_length = decode_i64(parts[6].as_str())?;
            Ok(
                JoinAuthPacket::GoodAuth {
                    user_id: parts[1].clone(),
                    username: parts[2].clone(),
                    color,
                    user_permissions,
                    channel_name: parts[5].clone(),
                    max_msg_length,
                },
            )
        } else if is_char(parts[0].as_str(), 'n') {
            if total != 3 {
                return Err(ParsePacketError::WrongFormat);
            }
            assert(all[1] == parts@[1]@ && all[2] == parts@[2]@);
            let reason = BadAuthReason::from_str(parts[1].as_str())?;
            let timestamp = decode_i64(parts[2].as_str())?;
            Ok(JoinAuthPacket::BadAuth { reason, timestamp })
        } else {
            if total != 6 {
                return Err(ParsePacketError::WrongFormat);
            }
            assert(all[1] == parts@[1]@
                && all[2] == parts@[2]@
                && all[3] == parts@[3]@
                && all[4] == parts@[4]@
                && all[5] == parts@[5]@);
            let timestamp = decode_i64(parts[0].as_str())?;
            let color = Color::from_str(parts[3].as_str())?;
            let user_permissions = UserPermissions::from_str(parts[4].as_str())?;
            Ok(
                JoinAuthPacket::Join {
                    timestamp,
                    user_id: parts[1].clone(),
                    username: parts[2].clone(),
                    color,
                    user_permissions,
                    sequence_id: parts[5].clone(),
                },
            )
        }
    }
}

impl Sockchatable for JoinAuthPacket {
    open spec fn encodable(&self) -> bool {
        true
    }

    open spec fn wire(&self) -> Seq<char> {
        join(self@.fields(), '\t')
    }

    fn to_sockstr(&self) -> (s: String) {
        join_fields(&self.to_parts())
    }
}

} // verus!
