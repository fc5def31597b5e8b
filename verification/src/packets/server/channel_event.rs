//! What happens to channels.

use crate::packets::types::{
    lemma_sockbool, sockbool_of, sockbool_text, FromParts, ParsePacketError, ParseSockBool,
    Sockchatable,
};
use crate::text::{all_tab_free, is_char, join, join_fields, tab_free, texts};
use vstd::prelude::*;

verus! {

/// A channel was created, changed or deleted.
#[derive(Debug, Clone, PartialEq, Eq)]
pub enum ChannelEventPacket {
    Creation { channel_name: String, is_protected: bool, is_temporary: bool },
    Update { channel_name: String, new_name: String, is_protected: bool, is_temporary: bool },
    Deletion { channel_name: String },
}

/// The model of a `ChannelEventPacket`.
pub enum ChannelEventPacketView {
    Creation { channel_name: Seq<char>, is_protected: bool, is_temporary: bool },
    Update { channel_name: Seq<char>, new_name: Seq<char>, is_protected: bool, is_temporary: bool },
    Deletion { channel_name: Seq<char> },
}

impl View for ChannelEventPacket {
    type V = ChannelEventPacketView;

    open spec fn view(&self) -> ChannelEventPacketView {
        match self {
            ChannelEventPacket::Creation { channel_name, is_protected, is_temporary } => {
                ChannelEventPacketView::Creation {
                    channel_name: channel_name@,
                    is_protected: *is_protected,
                    is_temporary: *is_temporary,
                }
            },
            ChannelEventPacket::Update {
                channel_name,
                new_name,
                is_protected,
                is_temporary,
            } => ChannelEventPacketView::Update {
                channel_name: channel_name@,
                new_name: new_name@,
                is_protected: *is_protected,
                is_temporary: *is_temporary,
            },
            ChannelEventPacket::Deletion { channel_name } => ChannelEventPacketView::Deletion {
                channel_name: channel_name@,
            },
        }
    }
}

impl ChannelEventPacketView {
    /// The fields of the packet: its sub-tag, then those of its variant.
    pub open spec fn fields(self) -> Seq<Seq<char>> {
        match self {
            ChannelEventPacketView::Creation { channel_name, is_protected, is_temporary } => seq![
                seq!['0'],
                channel_name,
                sockbool_text(is_protected),
                sockbool_text(is_temporary),
            ],
            ChannelEventPacketView::Update {
                channel_name,
                new_name,
                is_protected,
                is_temporary,
            } => seq![
                seq!['1'],
                channel_name,
                new_name,
                sockbool_text(is_protected),
                sockbool_text(is_temporary),
            ],
            ChannelEventPacketView::Deletion { channel_name } => seq![
                seq!['2'],
                channel_name,
            ],
        }
    }

    /// The number of fields of the variant that the first field selects, that field counted.
    /// `None` where it selects no variant.
    pub open spec fn arity(parts: Seq<Seq<char>>) -> Option<int> {
        if parts.len() == 0 {
            None
        } else if parts[0] == seq!['0'] {
            Some(4)
        } else if parts[0] == seq!['1'] {
            Some(5)
        } else if parts[0] == seq!['2'] {
            Some(2)
        } else {
            None
        }
    }

    /// The creation that four fields hold, the sub-tag `0` first.
    pub open spec fn creation_of_fields(parts: Seq<Seq<char>>) -> Result<
        ChannelEventPacketView,
        ParsePacketError,
    > {
        if parts.len() != 4 {
            Err(ParsePacketError::WrongFormat)
        } else {
            match sockbool_of(parts[2]) {
                Err(e) => Err(e),
                Ok(is_protected) => match sockbool_of(parts[3]) {
                    Err(e) => Err(e),
                    Ok(is_temporary) => Ok(
                        ChannelEventPacketView::Creation {
                            channel_name: parts[1],
                            is_protected,
                            is_temporary,
                        },
                    ),
                },
            }
        }
    }

    /// The update that five fields hold, the sub-tag `1` first.
    pub open spec fn update_of_fields(parts: Seq<Seq<char>>) -> Result<
        ChannelEventPacketView,
        ParsePacketError,
    > {
        if parts.len() != 5 {
            Err(ParsePacketError::WrongFormat)
        } else {
            match sockbool_of(parts[3]) {
                Err(e) => Err(e),
                Ok(is_protected) => match sockbool_of(parts[4]) {
                    Err(e) => Err(e),
                    Ok(is_temporary) => Ok(
                        ChannelEventPacketView::Update {
                            channel_name: parts[1],
                            new_name: parts[2],
                            is_protected,
                            is_temporary,
                        },
                    ),
                },
            }
        }
    }

    /// The deletion that two fields hold, the sub-tag `2` first.
    pub open spec fn deletion_of_fields(parts: Seq<Seq<char>>) -> Result<
        ChannelEventPacketView,
        ParsePacketError,
    > {
        if parts.len() != 2 {
            Err(ParsePacketError::WrongFormat)
        } else {
            Ok(ChannelEventPacketView::Deletion { channel_name: parts[1] })
        }
    }

    /// The packet that the fields after the tag hold. The first of them is the sub-tag.
    pub open spec fn of_fields(parts: Seq<Seq<char>>) -> Result<
        ChannelEventPacketView,
        ParsePacketError,
    > {
        if parts.len() == 0 {
            Err(ParsePacketError::WrongFormat)
        } else if parts[0] == seq!['0'] {
            Self::creation_of_fields(parts)
        } else if parts[0] == seq!['1'] {
            Self::update_of_fields(parts)
        } else if parts[0] == seq!['2'] {
            Self::deletion_of_fields(parts)
        } else {
            Err(ParsePacketError::WrongFormat)
        }
    }

    /// No text of the packet holds a tab.
    pub open spec fn is_tab_free(self) -> bool {
        match self {
            ChannelEventPacketView::Creation { channel_name, .. } => tab_free(channel_name),
            ChannelEventPacketView::Update { channel_name, new_name, .. } => {
                tab_free(channel_name) && tab_free(new_name)
            },
            ChannelEventPacketView::Deletion { channel_name } => tab_free(channel_name),
        }
    }

    /// A packet without tabs survives the wire.
    pub proof fn lemma_fields(self)
        requires
            self.is_tab_free(),
        ensures
            Self::of_fields(self.fields()) == Ok::<ChannelEventPacketView, ParsePacketError>(self),
            all_tab_free(self.fields()),
            self.fields().len() > 0,
    {
        assert(seq!['0'][0] == '0');
        assert(seq!['1'][0] == '1');
        assert(seq!['2'][0] == '2');
        match self {
            ChannelEventPacketView::Creation { is_protected, is_temporary, .. } => {
                lemma_sockbool(is_protected);
                lemma_sockbool(is_temporary);
            },
            ChannelEventPacketView::Update { is_protected, is_temporary, .. } => {
                lemma_sockbool(is_protected);
                lemma_sockbool(is_temporary);
            },
            ChannelEventPacketView::Deletion { .. } => {},
        }
    }

    /// What is decoded from fields without tabs holds no tab.
    pub proof fn lemma_of_fields(parts: Seq<Seq<char>>)
        requires
            all_tab_free(parts),
        ensures
            Self::of_fields(parts) matches Ok(packet) ==> packet.is_tab_free(),
    {
        assert forall|i: int| 0 <= i < parts.len() implies tab_free(#[trigger] parts[i]) by {}
    }

    /// A number of fields that the selected variant does not have is refused.
    pub proof fn lemma_arity(parts: Seq<Seq<char>>)
        ensures
            Self::of_fields(parts) is Ok ==> Self::arity(parts) == Some(parts.len() as int),
            Self::arity(parts) matches Some(n) && n != parts.len() ==> Self::of_fields(parts)
                == Err::<ChannelEventPacketView, ParsePacketError>(
                ParsePacketError::WrongFormat,
            ),
    {
    }
}

impl ChannelEventPacket {
    /// The fields of the packet.
    pub fn to_parts(&self) -> (parts: Vec<String>)
        ensures
            texts(parts@) == self@.fields(),
    {
        let mut parts: Vec<String> = Vec::new();
        proof {
            reveal_strlit("0");
            reveal_strlit("1");
            reveal_strlit("2");
            assert("0"@ =~= seq!['0']);
            assert("1"@ =~= seq!['1']);
            assert("2"@ =~= seq!['2']);
        }
        match self {
            Self::Creation { channel_name, is_protected, is_temporary } => {
                parts.push("0".to_owned());
                parts.push(channel_name.clone());
                parts.push(is_protected.to_sockstr());
                parts.push(is_temporary.to_sockstr());
                assert(texts(parts@) =~= self@.fields());
            },
            Self::Update { channel_name, new_name, is_protected, is_temporary } => {
                parts.push("1".to_owned());
                parts.push(channel_name.clone());
                parts.push(new_name.clone());
                parts.push(is_protected.to_sockstr());
                parts.push(is_temporary.to_sockstr());
                assert(texts(parts@) =~= self@.fields());
            },
            Self::Deletion { channel_name } => {
                parts.push("2".to_owned());
                parts.push(channel_name.clone());
                assert(texts(parts@) =~= self@.fields());
            },
        }
        parts
    }
}

impl FromParts for ChannelEventPacket {
    open spec fn of_parts(parts: Seq<Seq<char>>) -> Result<
        ChannelEventPacketView,
        ParsePacketError,
    > {
        ChannelEventPacketView::of_fields(parts)
    }

    fn from_parts(parts: Vec<String>) -> (r: Result<Self, ParsePacketError>) {
        let total = parts.len();
        if total == 0 {
            return Err(ParsePacketError::WrongFormat);
        }
        let ghost all = texts(parts@);
        assert(all[0] == parts@[0]@);
        if is_char(parts[0].as_str(), '0') {
            if total != 4 {
                return Err(ParsePacketError::WrongFormat);
            }
            assert(all[1] == parts@[1]@ && all[2] == parts@[2]@ && all[3] == parts@[3]@);
            let is_protected = parts[2].parse_sockbool()?;
            let is_temporary = parts[3].parse_sockbool()?;
            Ok(
                ChannelEventPacket::Creation {
                    channel_name: parts[1].clone(),
                    is_protected,
                    is_temporary,
                },
            )
        } else if is_char(parts[0].as_str(), '1') {
            if total != 5 {
                return Err(ParsePacketError::WrongFormat);
            }
            assert(all[1] == parts@[1]@
                && all[2] == parts@[2]@
                && all[3] == parts@[3]@
                && all[4] == parts@[4]@);
            let is_protected = parts[3].parse_sockbool()?;
            let is_temporary = parts[4].parse_sockbool()?;
            Ok(
                ChannelEventPacket::Update {
                    channel_name: parts[1].clone(),
                    new_name: parts[2].clone(),
                    is_protected,
                    is_temporary,
                },
            )
        } else if is_char(parts[0].as_str(), '2') {
            if total != 2 {
                return Err(ParsePacketError::WrongFormat);
            }
            assert(all[1] == parts@[1]@);
            Ok(ChannelEventPacket::Deletion { channel_name: parts[1].clone() })
        } else {
            Err(ParsePacketError::WrongFormat)
        }
    }
}

impl Sockchatable for ChannelEventPacket {
    open spec fn encodable(&self) -> bool {
        true
    }

    open spec fn wire(&self) -> Seq<char> {
        join(self@.fields(), '\t')
    }

    fn to_sockstr(&self) -> (s: String) {
        join_fields(&self.to_parts())
    }
}

} // verus!
