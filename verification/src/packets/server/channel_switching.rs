//! Who comes to a channel and who leaves it.

use crate::packets::types::{Color, FromParts, ParsePacketError, Sockchatable, UserPermissions};
use crate::text::{all_tab_free, is_char, join, join_fields, tab_free, texts};
use std::str::FromStr;
use vstd::prelude::*;

verus! {

/// A user came to the channel or left it, or the client was moved.
#[derive(Debug, Clone, PartialEq, Eq)]
pub enum ChannelSwitchingPacket {
    Join {
        user_id: String,
        username: String,
        color: Color,
        user_permissions: UserPermissions,
        sequence_id: String,
    },
    Departure { user_id: String, sequence_id: String },
    ForcedSwitch { channel_name: String },
}

/// The model of a `ChannelSwitchingPacket`.
pub enum ChannelSwitchingPacketView {
    Join {
        user_id: Seq<char>,
        username: Seq<char>,
        color: Seq<char>,
        user_permissions: UserPermissions,
        sequence_id: Seq<char>,
    },
    Departure { user_id: Seq<char>, sequence_id: Seq<char> },
    ForcedSwitch { channel_name: Seq<char> },
}

impl View for ChannelSwitchingPacket {
    type V = ChannelSwitchingPacketView;

    open spec fn view(&self) -> ChannelSwitchingPacketView {
        match self {
            ChannelSwitchingPacket::Join {
                user_id,
                username,
                color,
                user_permissions,
                sequence_id,
            } => ChannelSwitchingPacketView::Join {
                user_id: user_id@,
                username: username@,
                color: color@,
                user_permissions: *user_permissions,
                sequence_id: sequence_id@,
            },
            ChannelSwitchingPacket::Departure { user_id, sequence_id } => {
                ChannelSwitchingPacketView::Departure {
                    user_id: user_id@,
                    sequence_id: sequence_id@,
                }
            },
            ChannelSwitchingPacket::ForcedSwitch { channel_name } => {
                ChannelSwitchingPacketView::ForcedSwitch {
                    channel_name: channel_name@,
                }
            },
        }
    }
}

impl ChannelSwitchingPacketView {
    /// The fields of the packet: its sub-tag, then those of its variant.
    pub open spec fn fields(self) -> Seq<Seq<char>> {
        match self {
            ChannelSwitchingPacketView::Join {
                user_id,
                username,
                color,
                user_permissions,
                sequence_id,
            } => seq![
                seq!['0'],
                user_id,
                username,
                color,
                user_permissions.text(),
                sequence_id,
            ],
            ChannelSwitchingPacketView::Departure { user_id, sequence_id } => seq![
                seq!['1'],
                user_id,
                sequence_id,
            ],
            ChannelSwitchingPacketView::ForcedSwitch { channel_name } => seq![
                seq!['2'],
                channel_name,
            ],
        }
    }

    /// The number of fields of the variant that the first field selects, that field counted.
    /// `None` where it selects no variant.
    pub open spec fn arity(parts: Seq<Seq<char>>) -> Option<int> {
        if parts.len() == 0 {
            None
        } else if parts[0] == seq!['0'] {
            Some(6)
        } else if parts[0] == seq!['1'] {
            Some(3)
        } else if parts[0] == seq!['2'] {
            Some(2)
        } else {
            None
        }
    }

    /// The arrival that six fields hold, the sub-tag `0` first.
    pub open spec fn join_of_fields(parts: Seq<Seq<char>>) -> Result<
        ChannelSwitchingPacketView,
        ParsePacketError,
    > {
        if parts.len() != 6 {
            Err(ParsePacketError::WrongFormat)
        } else {
            match UserPermissions::of_text(parts[4]) {
                Err(e) => Err(e),
                Ok(user_permissions) => Ok(
                    ChannelSwitchingPacketView::Join {
                        user_id: parts[1],
                        username: parts[2],
                        color: parts[3],
                        user_permissions,
                        sequence_id: parts[5],
                    },
                ),
            }
        }
    }

    /// The departure that three fields hold, the sub-tag `1` first.
    pub open spec fn departure_of_fields(parts: Seq<Seq<char>>) -> Result<
        ChannelSwitchingPacketView,
        ParsePacketError,
    > {
        if parts.len() != 3 {
            Err(ParsePacketError::WrongFormat)
        } else {
            Ok(
                ChannelSwitchingPacketView::Departure {
                    user_id: parts[1],
                    sequence_id: parts[2],
                },
            )
        }
    }

    /// The forced switch that two fields hold, the sub-tag `2` first.
    pub open spec fn forced_switch_of_fields(parts: Seq<Seq<char>>) -> Result<
        ChannelSwitchingPacketView,
        ParsePacketError,
    > {
        if parts.len() != 2 {
            Err(ParsePacketError::WrongFormat)
        } else {
            Ok(
                ChannelSwitchingPacketView::ForcedSwitch {
                    channel_name: parts[1],
                },
            )
        }
    }

    /// The packet that the fields after the tag hold. The first of them is the sub-tag.
    pub open spec fn of_fields(parts: Seq<Seq<char>>) -> Result<
        ChannelSwitchingPacketView,
        ParsePacketError,
    > {
        if parts.len() == 0 {
            Err(ParsePacketError::WrongFormat)
        } else if parts[0] == seq!['0'] {
            Self::join_of_fields(parts)
        } else if parts[0] == seq!['1'] {
            Self::departure_of_fields(parts)
        } else if parts[0] == seq!['2'] {
            Self::forced_switch_of_fields(parts)
        } else {
            Err(ParsePacketError::WrongFormat)
        }
    }

    /// No text of the packet holds a tab.
    pub open spec fn is_tab_free(self) -> bool {
        match self {
            ChannelSwitchingPacketView::Join { user_id, username, color, sequence_id, .. } => {
                tab_free(user_id) && tab_free(username) && tab_free(color) && tab_free(sequence_id)
            },
            ChannelSwitchingPacketView::Departure { user_id, sequence_id } => {
                tab_free(user_id) && tab_free(sequence_id)
            },
            ChannelSwitchingPacketView::ForcedSwitch { channel_name } => tab_free(channel_name),
        }
    }

    /// A packet without tabs survives the wire.
    pub proof fn lemma_fields(self)
        requires
            self.is_tab_free(),
        ensures
            Self::of_fields(self.fields()) == Ok::<ChannelSwitchingPacketView, ParsePacketError>(
                self,
            ),
            all_tab_free(self.fields()),
            self.fields().len() > 0,
    {
        assert(seq!['0'][0] == '0');
        assert(seq!['1'][0] == '1');
        assert(seq!['2'][0] == '2');
        match self {
            ChannelSwitchingPacketView::Join { user_permissions, .. } => {
                user_permissions.lemma_text();
            },
            ChannelSwitchingPacketView::Departure { .. } => {},
            ChannelSwitchingPacketView::ForcedSwitch { .. } => {},
        }
    }

    /// What is decoded from fields without tabs holds no tab.
    pub proof fn lemma_of_fields(parts: Seq<Seq<char>>)
        requires
            all_tab_free(parts),
        ensures
            Self::of_fields(parts) matches Ok(packet) ==> packet.is_tab_free(),
    {
        assert forall|i: int| 0 <= i < parts.len() implies tab_free(#[trigger] parts[i]) by {}
    }

    /// A number of fields that the selected variant does not have is refused.
    pub proof fn lemma_arity(parts: Seq<Seq<char>>)
        ensures
            Self::of_fields(parts) is Ok ==> Self::arity(parts) == Some(parts.len() as int),
            Self::arity(parts) matches Some(n) && n != parts.len() ==> Self::of_fields(parts)
                == Err::<ChannelSwitchingPacketView, ParsePacketError>(
                ParsePacketError::WrongFormat,
            ),
    {
    }
}

impl ChannelSwitchingPacket {
    /// The fields of the packet.
    pub fn to_parts(&self) -> (parts: Vec<String>)
        ensures
            texts(parts@) == self@.fields(),
    {
        let mut parts: Vec<String> = Vec::new();
        proof {
            reveal_strlit("0");
            reveal_strlit("1");
            reveal_strlit("2");
            assert("0"@ =~= seq!['0']);
            assert("1"@ =~= seq!['1']);
            assert("2"@ =~= seq!['2']);
        }
        match self {
            Self::Join { user_id, username, color, user_permissions, sequence_id } => {
                parts.push("0".to_owned());
                parts.push(user_id.clone());
                parts.push(username.clone());
                parts.push(color.to_sockstr());
                parts.push(user_permissions.to_sockstr());
                parts.push(sequence_id.clone());
                assert(texts(parts@) =~= self@.fields());
            },
            Self::Departure { user_id, sequence_id } => {
                parts.push("1".to_owned());
                parts.push(user_id.clone());
                parts.push(sequence_id.clone());
                assert(texts(parts@) =~= self@.fields());
            },
            Self::ForcedSwitch { channel_name } => {
                parts.push("2".to_owned());
                parts.push(channel_name.clone());
                assert(texts(parts@) =~= self@.fields());
            },
        }
        parts
    }
}

impl FromParts for ChannelSwitchingPacket {
    open spec fn of_parts(parts: Seq<Seq<char>>) -> Result<
        ChannelSwitchingPacketView,
        ParsePacketError,
    > {
        ChannelSwitchingPacketView::of_fields(parts)
    }

    fn from_parts(parts: Vec<String>) -> (r: Result<Self, ParsePacketError>) {
        let total = parts.len();
        if total == 0 {
            return Err(ParsePacketError::WrongFormat);
        }
        let ghost all = texts(parts@);
        assert(all[0] == parts@[0]@);
        if is_char(parts[0].as_str(), '0') {
            if total != 6 {
                return Err(ParsePacketError::WrongFormat);
            }
            assert(all[1] == parts@[1]@
                && all[2] == parts@[2]@
                && all[3] == parts@[3]@
                && all[4] == parts@[4]@
                && all[5] == parts@[5]@);
            let color = Color::from_str(parts[3].as_str())?;
            let user_permissions = UserPermissions::from_str(parts[4].as_str())?;
            Ok(
                ChannelSwitchingPacket::Join {
                    user_id: parts[1].clone(),
                    username: parts[2].clone(),
                    color,
                    user_permissions,
                    sequence_id: parts[5].clone(),
                },
            )
        } else if is_char(parts[0].as_str(), '1') {
            if total != 3 {
                return Err(ParsePacketError::WrongFormat);
            }
            assert(all[1] == parts@[1]@ && all[2] == parts@[2]@);
            Ok(
                ChannelSwitchingPacket::Departure {
                    user_id: parts[1].clone(),
                    sequence_id: parts[2].clone(),
                },
            )
        } else if is_char(parts[0].as_str(), '2') {
            if total != 2 {
                return Err(ParsePacketError::WrongFormat);
            }
            assert(all[1] == parts@[1]@);
            Ok(ChannelSwitchingPacket::ForcedSwitch { channel_name: parts[1].clone() })
        } else {
            Err(ParsePacketError::WrongFormat)
        }
    }
}

impl Sockchatable for ChannelSwitchingPacket {
    open spec fn encodable(&self) -> bool {
        true
    }

    open spec fn wire(&self) -> Seq<char> {
        join(self@.fields(), '\t')
    }

    fn to_sockstr(&self) -> (s: String) {
        join_fields(&self.to_parts())
    }
}

} // verus!
