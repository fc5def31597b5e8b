//! What a client is told of the state it joins: the users and channels that
//! exist, and the messages that were sent before.

use crate::number::{format_i64, signed_decimal};
use crate::packets::types::{
    decode_i64, i64_field, lemma_i64_field, lemma_sockbool, sockbool_of, sockbool_text,
    ChannelContext, ChannelContextView, Color, FromParts, MessageFlags, ParsePacketError,
    ParseSockBool, Sockchatable, UserContext, UserContextView, UserPermissions,
};
use crate::text::{all_tab_free, is_char, join, join_fields, tab_free, texts};
use std::str::FromStr;
use vstd::prelude::*;

verus! {

#[allow(inconsistent_fields)]
#[derive(Debug, Clone, PartialEq, Eq)]
pub enum ContextInformationPacket {
    ExistingUsers { count: i64, contexts: Vec<UserContext> },
    ExistingMessage {
        timestamp: i64,
        user_id: String,
        username: String,
        color: Color,
        user_permissions: UserPermissions,
        message: String,
        sequence_id: String,
        notify: bool,
        message_flags: MessageFlags,
    },
    Channels { count: i64, contexts: Vec<ChannelContext> },
}

/// The model of a `ContextInformationPacket`.
#[allow(inconsistent_fields)]
pub enum ContextInformationPacketView {
    ExistingUsers { count: i64, contexts: Seq<UserContextView> },
    ExistingMessage {
        timestamp: i64,
        user_id: Seq<char>,
        username: Seq<char>,
        color: Seq<char>,
        user_permissions: UserPermissions,
        message: Seq<char>,
        sequence_id: Seq<char>,
        notify: bool,
        message_flags: MessageFlags,
    },
    Channels { count: i64, contexts: Seq<ChannelContextView> },
}

/// The models of a list of users.
pub open spec fn user_views(users: Seq<UserContext>) -> Seq<UserContextView> {
    Seq::new(users.len(), |i: int| users[i]@)
}

/// The models of a list of channels.
pub open spec fn channel_views(channels: Seq<ChannelContext>) -> Seq<ChannelContextView> {
    Seq::new(channels.len(), |i: int| channels[i]@)
}

impl View for ContextInformationPacket {
    type V = ContextInformationPacketView;

    open spec fn view(&self) -> ContextInformationPacketView {
        match self {
            ContextInformationPacket::ExistingUsers { count, contexts } => {
                ContextInformationPacketView::ExistingUsers {
                    count: *count,
                    contexts: user_views(contexts@),
                }
            },
            ContextInformationPacket::ExistingMessage {
                timestamp,
                user_id,
                username,
                color,
                user_permissions,
                message,
                sequence_id,
                notify,
                message_flags,
            } => ContextInformationPacketView::ExistingMessage {
                timestamp: *timestamp,
                user_id: user_id@,
                username: username@,
                color: color@,
                user_permissions: *user_permissions,
                message: message@,
                sequence_id: sequence_id@,
                notify: *notify,
                message_flags: *message_flags,
            },
            ContextInformationPacket::Channels { count, contexts } => {
                ContextInformationPacketView::Channels {
                    count: *count,
                    contexts: channel_views(contexts@),
                }
            },
        }
    }
}

/// The records read so far, before those that the rest of the fields hold.
pub open spec fn after<T>(done: Seq<T>, rest: Result<Seq<T>, ParsePacketError>) -> Result<
    Seq<T>,
    ParsePacketError,
> {
    match rest {
        Ok(more) => Ok(done + more),
        Err(e) => Err(e),
    }
}

/// The fields of a list of users: five for each user, in order.
pub open spec fn user_fields(users: Seq<UserContextView>) -> Seq<Seq<char>>
    decreases users.len(),
{
    if users.len() == 0 {
        Seq::empty()
    } else {
        users[0].fields() + user_fields(users.skip(1))
    }
}

/// The users that a run of fields holds, five fields for each. The first
/// field that is no value of its type decides the error.
pub open spec fn users_of(parts: Seq<Seq<char>>) -> Result<Seq<UserContextView>, ParsePacketError>
    decreases parts.len(),
{
    if parts.len() < 5 {
        Ok(Seq::empty())
    } else {
        match UserContextView::of_fields(parts.take(5)) {
            Err(e) => Err(e),
            Ok(first) => after(seq![first], users_of(parts.skip(5))),
        }
    }
}

/// The fields of a list of channels: three for each channel, in order.
pub open spec fn channel_fields(channels: Seq<ChannelContextView>) -> Seq<Seq<char>>
    decreases channels.len(),
{
    if channels.len() == 0 {
        Seq::empty()
    } else {
        channels[0].fields() + channel_fields(channels.skip(1))
    }
}

/// The channels that a run of fields holds, three fields for each. The first
/// field that is no value of its type decides the error.
pub open spec fn channels_of(parts: Seq<Seq<char>>) -> Result<
    Seq<ChannelContextView>,
    ParsePacketError,
>
    decreases parts.len(),
{
    if parts.len() < 3 {
        Ok(Seq::empty())
    } else {
        match ChannelContextView::of_fields(parts.take(3)) {
            Err(e) => Err(e),
            Ok(first) => after(seq![first], channels_of(parts.skip(3))),
        }
    }
}

/// No user of the list holds a tab.
pub open spec fn users_tab_free(users: Seq<UserContextView>) -> bool {
    forall|i: int| 0 <= i < users.len() ==> (#[trigger] users[i]).is_tab_free()
}

/// No channel of the list holds a tab.
pub open spec fn channels_tab_free(channels: Seq<ChannelContextView>) -> bool {
    forall|i: int| 0 <= i < channels.len() ==> (#[trigger] channels[i]).is_tab_free()
}

/// The fields of a list with one more user end in the fields of that user.
pub proof fn lemma_user_fields_push(users: Seq<UserContextView>, last: UserContextView)
    ensures
        user_fields(users.push(last)) == user_fields(users) + last.fields(),
    decreases users.len(),
{
    let grown = users.push(last);
    if users.len() == 0 {
        assert(grown.skip(1) =~= Seq::<UserContextView>::empty());
        assert(user_fields(grown.skip(1)) =~= Seq::<Seq<char>>::empty());
        assert(user_fields(grown) =~= last.fields());
        assert(user_fields(users) + last.fields() =~= last.fields());
    } else {
        assert(grown.skip(1) =~= users.skip(1).push(last));
        lemma_user_fields_push(users.skip(1), last);
        assert(user_fields(grown) =~= user_fields(users) + last.fields());
    }
}

/// The fields of a list with one more channel end in the fields of that channel.
pub proof fn lemma_channel_fields_push(channels: Seq<ChannelContextView>, last: ChannelContextView)
    ensures
        channel_fields(channels.push(last)) == channel_fields(channels) + last.fields(),
    decreases channels.len(),
{
    let grown = channels.push(last);
    if channels.len() == 0 {
        assert(grown.skip(1) =~= Seq::<ChannelContextView>::empty());
        assert(channel_fields(grown.skip(1)) =~= Seq::<Seq<char>>::empty());
        assert(channel_fields(grown) =~= last.fields());
        assert(channel_fields(channels) + last.fields() =~= last.fields());
    } else {
        assert(grown.skip(1) =~= channels.skip(1).push(last));
        lemma_channel_fields_push(channels.skip(1), last);
        assert(channel_fields(grown) =~= channel_fields(channels) + last.fields());
    }
}

/// A list of users without tabs survives the wire, in five fields for each user.
pub proof fn lemma_users(users: Seq<UserContextView>)
    requires
        users_tab_free(users),
    ensures
        users_of(user_fields(users)) == Ok::<Seq<UserContextView>, ParsePacketError>(users),
        user_fields(users).len() == 5 * users.len(),
        all_tab_free(user_fields(users)),
    decreases users.len(),
{
    let all = user_fields(users);
    if users.len() == 0 {
        assert(users =~= Seq::<UserContextView>::empty());
    } else {
        let rest = users.skip(1);
        assert(users[0].is_tab_free());
        assert forall|i: int| 0 <= i < rest.len() implies (#[trigger] rest[i]).is_tab_free() by {
            assert(rest[i] == users[i + 1]);
        }
        users[0].lemma_fields();
        lemma_users(rest);
        assert(all.take(5) =~= users[0].fields());
        assert(all.skip(5) =~= user_fields(rest));
        assert(seq![users[0]] + rest =~= users);
        assert(users_of(all.skip(5)) == Ok::<Seq<UserContextView>, ParsePacketError>(rest));
        assert(UserContextView::of_fields(all.take(5)) == Ok::<UserContextView, ParsePacketError>(
            users[0],
        ));
        assert(users_of(all) == after(seq![users[0]], users_of(all.skip(5))));
        assert forall|i: int| 0 <= i < all.len() implies tab_free(#[trigger] all[i]) by {
            if i < 5 {
                assert(all[i] == users[0].fields()[i]);
            } else {
                assert(all[i] == user_fields(rest)[i - 5]);
            }
        }
    }
}

/// A list of channels without tabs survives the wire, in three fields for each channel.
pub proof fn lemma_channels(channels: Seq<ChannelContextView>)
    requires
        channels_tab_free(channels),
    ensures
        channels_of(channel_fields(channels)) == Ok::<Seq<ChannelContextView>, ParsePacketError>(
            channels,
        ),
        channel_fields(channels).len() == 3 * channels.len(),
        all_tab_free(channel_fields(channels)),
    decreases channels.len(),
{
    let all = channel_fields(channels);
    if channels.len() == 0 {
        assert(channels =~= Seq::<ChannelContextView>::empty());
    } else {
        let rest = channels.skip(1);
        assert(channels[0].is_tab_free());
        assert forall|i: int| 0 <= i < rest.len() implies (#[trigger] rest[i]).is_tab_free() by {
            assert(rest[i] == channels[i + 1]);
        }
        channels[0].lemma_fields();
        lemma_channels(rest);
        assert(all.take(3) =~= channels[0].fields());
        assert(all.skip(3) =~= channel_fields(rest));
        assert(seq![channels[0]] + rest =~= channels);
        assert(channels_of(all.skip(3)) == Ok::<Seq<ChannelContextView>, ParsePacketError>(rest));
        assert(ChannelContextView::of_fields(all.take(3)) == Ok::<
            ChannelContextView,
            ParsePacketError,
        >(channels[0]));
        assert(channels_of(all) == after(seq![channels[0]], channels_of(all.skip(3))));
        assert forall|i: int| 0 <= i < all.len() implies tab_free(#[trigger] all[i]) by {
            if i < 3 {
                assert(all[i] == channels[0].fields()[i]);
            } else {
                assert(all[i] == channel_fields(rest)[i - 3]);
            }
        }
    }
}

/// The users that are decoded from fields without tabs hold no tab, and
/// there is one for each five fields.
pub proof fn lemma_users_of(parts: Seq<Seq<char>>)
    requires
        all_tab_free(parts),
        parts.len() % 5 == 0,
    ensures
        users_of(parts) matches Ok(users) ==> users_tab_free(users) && 5 * users.len()
            == parts.len(),
    decreases parts.len(),
{
    if parts.len() >= 5 {
        let head = parts.take(5);
        let tail = parts.skip(5);
        assert forall|i: int| 0 <= i < head.len() implies tab_free(#[trigger] head[i]) by {
            assert(head[i] == parts[i]);
        }
        assert forall|i: int| 0 <= i < tail.len() implies tab_free(#[trigger] tail[i]) by {
            assert(tail[i] == parts[i + 5]);
        }
        UserContextView::lemma_of_fields(head);
        lemma_users_of(tail);
        if users_of(parts) is Ok {
            let users = users_of(parts)->Ok_0;
            let first = UserContextView::of_fields(head)->Ok_0;
            let rest = users_of(tail)->Ok_0;
            assert(users == seq![first] + rest);
            assert forall|i: int| 0 <= i < users.len() implies (#[trigger] users[i])
                .is_tab_free() by {
                if i > 0 {
                    assert(users[i] == rest[i - 1]);
                }
            }
        }
    }
}

/// The channels that are decoded from fields without tabs hold no tab, and
/// there is one for each three fields.
pub proof fn lemma_channels_of(parts: Seq<Seq<char>>)
    requires
        all_tab_free(parts),
        parts.len() % 3 == 0,
    ensures
        channels_of(parts) matches Ok(channels) ==> channels_tab_free(channels) && 3
            * channels.len() == parts.len(),
    decreases parts.len(),
{
    if parts.len() >= 3 {
        let head = parts.take(3);
        let tail = parts.skip(3);
        assert forall|i: int| 0 <= i < head.len() implies tab_free(#[trigger] head[i]) by {
            assert(head[i] == parts[i]);
        }
        assert forall|i: int| 0 <= i < tail.len() implies tab_free(#[trigger] tail[i]) by {
            assert(tail[i] == parts[i + 3]);
        }
        ChannelContextView::lemma_of_fields(head);
        lemma_channels_of(tail);
        if channels_of(parts) is Ok {
            let channels = channels_of(parts)->Ok_0;
            let first = ChannelContextView::of_fields(head)->Ok_0;
            let rest = channels_of(tail)->Ok_0;
            assert(channels == seq![first] + rest);
            assert forall|i: int| 0 <= i < channels.len() implies (#[trigger] channels[i])
                .is_tab_free() by {
                if i > 0 {
                    assert(channels[i] == rest[i - 1]);
                }
            }
        }
    }
}

impl ContextInformationPacketView {
    /// The fields of the packet: its sub-tag, then those of its variant.
    pub open spec fn fields(self) -> Seq<Seq<char>> {
        match self {
            ContextInformationPacketView::ExistingUsers { count, contexts } => seq![
                seq!['0'],
                signed_decimal(count as int),
            ] + user_fields(contexts),
            ContextInformationPacketView::ExistingMessage {
                timestamp,
                user_id,
                username,
                color,
                user_permissions,
                message,
                sequence_id,
                notify,
                message_flags,
            } => seq![
                seq!['1'],
                signed_decimal(timestamp as int),
                user_id,
                username,
                color,
                user_permissions.text(),
                message,
                sequence_id,
                sockbool_text(notify),
                message_flags.text(),
            ],
            ContextInformationPacketView::Channels { count, contexts } => seq![
                seq!['2'],
                signed_decimal(count as int),
            ] + channel_fields(contexts),
        }
    }

    /// The number of fields of the variant that the sub-tag selects, the
    /// sub-tag counted. A list has two fields and those of its records, as many
    /// as the count in its second field says; without that field it lacks one
    /// of the two. `None` where nothing selects a variant, or the count of a
    /// list is no number.
    pub open spec fn arity(parts: Seq<Seq<char>>) -> Option<int> {
        if parts.len() == 0 {
            None
        } else if parts[0] == seq!['1'] {
            Some(10)
        } else if parts[0] == seq!['0'] || parts[0] == seq!['2'] {
            let width: int = if parts[0] == seq!['0'] {
                5
            } else {
                3
            };
            if parts.len() < 2 {
                Some(2)
            } else {
                match i64_field(parts[1]) {
                    Ok(count) => Some(2 + width * count),
                    Err(_) => None,
                }
            }
        } else {
            None
        }
    }

    /// The list of users that follows the sub-tag `0`: a count, then five
    /// fields for each user, no more and no fewer.
    pub open spec fn users_of_fields(parts: Seq<Seq<char>>) -> Result<
        ContextInformationPacketView,
        ParsePacketError,
    > {
        if parts.len() < 2 {
            Err(ParsePacketError::WrongFormat)
        } else {
            match i64_field(parts[1]) {
                Err(e) => Err(e),
                Ok(count) => if parts.len() - 2 != 5 * count {
                    Err(ParsePacketError::WrongFormat)
                } else {
                    match users_of(parts.skip(2)) {
                        Err(e) => Err(e),
                        Ok(contexts) => Ok(
                            ContextInformationPacketView::ExistingUsers { count, contexts },
                        ),
                    }
                },
            }
        }
    }

    /// The list of channels that follows the sub-tag `2`: a count, then three
    /// fields for each channel, no more and no fewer.
    pub open spec fn channels_of_fields(parts: Seq<Seq<char>>) -> Result<
        ContextInformationPacketView,
        ParsePacketError,
    > {
        if parts.len() < 2 {
            Err(ParsePacketError::WrongFormat)
        } else {
            match i64_field(parts[1]) {
                Err(e) => Err(e),
                Ok(count) => if parts.len() - 2 != 3 * count {
                    Err(ParsePacketError::WrongFormat)
                } else {
                    match channels_of(parts.skip(2)) {
                        Err(e) => Err(e),
                        Ok(contexts) => Ok(
                            ContextInformationPacketView::Channels { count, contexts },
                        ),
                    }
                },
            }
        }
    }

    /// The earlier message that follows the sub-tag `1`, in nine fields.
    pub open spec fn message_of_fields(parts: Seq<Seq<char>>) -> Result<
        ContextInformationPacketView,
        ParsePacketError,
    > {
        if parts.len() != 10 {
            Err(ParsePacketError::WrongFormat)
        } else {
            match i64_field(parts[1]) {
                Err(e) => Err(e),
                Ok(timestamp) => match UserPermissions::of_text(parts[5]) {
                    Err(e) => Err(e),
                    Ok(user_permissions) => match sockbool_of(parts[8]) {
                        Err(e) => Err(e),
                        Ok(notify) => match MessageFlags::of_text(parts[9]) {
                            Err(e) => Err(e),
                            Ok(message_flags) => Ok(
                                ContextInformationPacketView::ExistingMessage {
                                    timestamp,
                                    user_id: parts[2],
                                    username: parts[3],
                                    color: parts[4],
                                    user_permissions,
                                    message: parts[6],
                                    sequence_id: parts[7],
                                    notify,
                                    message_flags,
                                },
                            ),
                        },
                    },
                },
            }
        }
    }

    /// The packet that the fields after the tag hold. The first of them is
    /// the sub-tag.
    pub open spec fn of_fields(parts: Seq<Seq<char>>) -> Result<
        ContextInformationPacketView,
        ParsePacketError,
    > {
        if parts.len() == 0 {
            Err(ParsePacketError::WrongFormat)
        } else if parts[0] == seq!['0'] {
            Self::users_of_fields(parts)
        } else if parts[0] == seq!['1'] {
            Self::message_of_fields(parts)
        } else if parts[0] == seq!['2'] {
            Self::channels_of_fields(parts)
        } else {
            Err(ParsePacketError::WrongFormat)
        }
    }

    /// The count of a list is the number of its records.
    pub open spec fn is_counted(self) -> bool {
        match self {
            ContextInformationPacketView::ExistingUsers { count, contexts } => count
                == contexts.len(),
            ContextInformationPacketView::ExistingMessage { .. } => true,
            ContextInformationPacketView::Channels { count, contexts } => count == contexts.len(),
        }
    }

    /// No text of the packet holds a tab.
    pub open spec fn is_tab_free(self) -> bool {
        match self {
            ContextInformationPacketView::ExistingUsers { contexts, .. } => users_tab_free(
                contexts,
            ),
            ContextInformationPacketView::ExistingMessage {
                user_id,
                username,
                color,
                message,
                sequence_id,
                ..
            } => tab_free(user_id) && tab_free(username) && tab_free(color) && tab_free(message)
                && tab_free(sequence_id),
            ContextInformationPacketView::Channels { contexts, .. } => channels_tab_free(contexts),
        }
    }

    /// A packet without tabs, whose count is right, survives the wire.
    pub proof fn lemma_fields(self)
        requires
            self.is_counted(),
            self.is_tab_free(),
        ensures
            Self::of_fields(self.fields()) == Ok::<ContextInformationPacketView, ParsePacketError>(
                self,
            ),
            all_tab_free(self.fields()),
            self.fields().len() > 0,
    {
        let all = self.fields();
        assert(seq!['0'][0] == '0');
        assert(seq!['1'][0] == '1');
        assert(seq!['2'][0] == '2');
        match self {
            ContextInformationPacketView::ExistingUsers { count, contexts } => {
                lemma_i64_field(count);
                lemma_users(contexts);
                assert(all.skip(2) =~= user_fields(contexts));
                assert forall|i: int| 0 <= i < all.len() implies tab_free(#[trigger] all[i]) by {
                    if i >= 2 {
                        assert(all[i] == user_fields(contexts)[i - 2]);
                    }
                }
            },
            ContextInformationPacketView::ExistingMessage {
                timestamp,
                user_permissions,
                notify,
                message_flags,
                ..
            } => {
                lemma_i64_field(timestamp);
                user_permissions.lemma_text();
                lemma_sockbool(notify);
                message_flags.lemma_text();
            },
            ContextInformationPacketView::Channels { count, contexts } => {
                lemma_i64_field(count);
                lemma_channels(contexts);
                assert(all.skip(2) =~= channel_fields(contexts));
                assert forall|i: int| 0 <= i < all.len() implies tab_free(#[trigger] all[i]) by {
                    if i >= 2 {
                        assert(all[i] == channel_fields(contexts)[i - 2]);
                    }
                }
            },
        }
    }
}

impl ContextInformationPacketView {
    /// What is decoded from fields without tabs holds no tab, and its count is right.
    pub proof fn lemma_of_fields(parts: Seq<Seq<char>>)
        requires
            all_tab_free(parts),
        ensures
            Self::of_fields(parts) matches Ok(packet) ==> packet.is_tab_free()
                && packet.is_counted(),
    {
        assert forall|i: int| 0 <= i < parts.len() implies tab_free(#[trigger] parts[i]) by {}
        if parts.len() >= 2 {
            let tail = parts.skip(2);
            assert forall|i: int| 0 <= i < tail.len() implies tab_free(#[trigger] tail[i]) by {
                assert(tail[i] == parts[i + 2]);
            }
            assert(seq!['0'][0] == '0');
            assert(seq!['1'][0] == '1');
            assert(seq!['2'][0] == '2');
            if parts[0] == seq!['0'] && Self::of_fields(parts) is Ok {
                let count = i64_field(parts[1])->Ok_0;
                assert(tail.len() == 5 * count);
                lemma_users_of(tail);
            }
            if parts[0] == seq!['2'] && Self::of_fields(parts) is Ok {
                let count = i64_field(parts[1])->Ok_0;
                assert(tail.len() == 3 * count);
                lemma_channels_of(tail);
            }
        }
    }

    /// A number of fields that the selected variant does not have is refused.
    pub proof fn lemma_arity(parts: Seq<Seq<char>>)
        ensures
            Self::of_fields(parts) is Ok ==> Self::arity(parts) == Some(parts.len() as int),
            Self::arity(parts) matches Some(n) && n != parts.len() ==> Self::of_fields(parts)
                == Err::<ContextInformationPacketView, ParsePacketError>(
                ParsePacketError::WrongFormat,
            ),
    {
        assert(seq!['0'][0] == '0');
        assert(seq!['1'][0] == '1');
        assert(seq!['2'][0] == '2');
    }
}

/// Reads the users that stand in `parts` after the sub-tag and the count.
fn decode_users(parts: &Vec<String>, groups: usize) -> (r: Result<
    Vec<UserContext>,
    ParsePacketError,
>)
    requires
        parts@.len() == 2 + 5 * groups,
    ensures
        match r {
            Ok(users) => users_of(texts(parts@).skip(2)) == Ok::<
                Seq<UserContextView>,
                ParsePacketError,
            >(user_views(users@)) && users@.len() == groups,
            Err(e) => users_of(texts(parts@).skip(2)) == Err::<
                Seq<UserContextView>,
                ParsePacketError,
            >(e),
        },
{
    let total = parts.len();
    let ghost all = texts(parts@);
    let mut users: Vec<UserContext> = Vec::new();
    let mut at: usize = 2;
    proof {
        assert(Seq::<UserContextView>::empty() + users_of(all.skip(2))->Ok_0 =~= users_of(
            all.skip(2),
        )->Ok_0);
        assert(user_views(users@) =~= Seq::<UserContextView>::empty());
    }
    while users.len() < groups
        invariant
            all == texts(parts@),
            total == parts@.len(),
            total == 2 + 5 * groups,
            users@.len() <= groups,
            at == 2 + 5 * users@.len(),
            users_of(all.skip(2)) == after(user_views(users@), users_of(all.skip(at as int))),
        decreases groups - users@.len(),
    {
        let ghost tail = all.skip(at as int);
        let ghost done = user_views(users@);
        proof {
            assert(tail.take(5) =~= all.subrange(at as int, at + 5));
            assert(tail.skip(5) =~= all.skip(at + 5));
        }
        match UserContext::decode_at(parts, at) {
            Err(e) => {
                return Err(e);
            },
            Ok(user) => {
                proof {
                    let rest = users_of(tail.skip(5));
                    assert(user_views(users@.push(user)) =~= done.push(user@));
                    if rest is Ok {
                        assert(done + (seq![user@] + rest->Ok_0) =~= done.push(user@)
                            + rest->Ok_0);
                    }
                }
                users.push(user);
                at = at + 5;
            },
        }
    }
    proof {
        assert(all.skip(at as int).len() == 0);
        assert(user_views(users@) + Seq::<UserContextView>::empty() =~= user_views(users@));
    }
    Ok(users)
}

/// Reads the channels that stand in `parts` after the sub-tag and the count.
fn decode_channels(parts: &Vec<String>, groups: usize) -> (r: Result<
    Vec<ChannelContext>,
    ParsePacketError,
>)
    requires
        parts@.len() == 2 + 3 * groups,
    ensures
        match r {
            Ok(channels) => channels_of(texts(parts@).skip(2)) == Ok::<
                Seq<ChannelContextView>,
                ParsePacketError,
            >(channel_views(channels@)) && channels@.len() == groups,
            Err(e) => channels_of(texts(parts@).skip(2)) == Err::<
                Seq<ChannelContextView>,
                ParsePacketError,
            >(e),
        },
{
    let total = parts.len();
    let ghost all = texts(parts@);
    let mut channels: Vec<ChannelContext> = Vec::new();
    let mut at: usize = 2;
    proof {
        assert(Seq::<ChannelContextView>::empty() + channels_of(all.skip(2))->Ok_0
            =~= channels_of(all.skip(2))->Ok_0);
        assert(channel_views(channels@) =~= Seq::<ChannelContextView>::empty());
    }
    while channels.len() < groups
        invariant
            all == texts(parts@),
            total == parts@.len(),
            total == 2 + 3 * groups,
            channels@.len() <= groups,
            at == 2 + 3 * channels@.len(),
            channels_of(all.skip(2)) == after(
                channel_views(channels@),
                channels_of(all.skip(at as int)),
            ),
        decreases groups - channels@.len(),
    {
        let ghost tail = all.skip(at as int);
        let ghost done = channel_views(channels@);
        proof {
            assert(tail.take(3) =~= all.subrange(at as int, at + 3));
            assert(tail.skip(3) =~= all.skip(at + 3));
        }
        match ChannelContext::decode_at(parts, at) {
            Err(e) => {
                return Err(e);
            },
            Ok(channel) => {
                proof {
                    let rest = channels_of(tail.skip(3));
                    assert(channel_views(channels@.push(channel)) =~= done.push(channel@));
                    if rest is Ok {
                        assert(done + (seq![channel@] + rest->Ok_0) =~= done.push(channel@)
                            + rest->Ok_0);
                    }
                }
                channels.push(channel);
                at = at + 3;
            },
        }
    }
    proof {
        assert(all.skip(at as int).len() == 0);
        assert(channel_views(channels@) + Seq::<ChannelContextView>::empty() =~= channel_views(
            channels@,
        ));
    }
    Ok(channels)
}

/// How many groups of `width` fields follow the sub-tag and the count, if
/// that is `count` groups exactly.
fn group_count(fields: usize, width: usize, count: i64) -> (r: Option<usize>)
    requires
        fields >= 2,
        width == 3 || width == 5,
    ensures
        r is Some <==> fields - 2 == width * count,
        r matches Some(groups) ==> groups == count,
{
    let rest = fields - 2;
    if count < 0 || rest % width != 0 {
        return None;
    }
    let groups = rest / width;
    assert(rest == width * groups) by (nonlinear_arith)
        requires
            rest % width == 0,
            groups == rest / width,
            width > 0,
    ;
    if count as u64 != groups as u64 {
        assert(width * count != width * groups) by (nonlinear_arith)
            requires
                count != groups,
                width > 0,
        ;
        return None;
    }
    Some(groups)
}

impl FromParts for ContextInformationPacket {
    open spec fn of_parts(parts: Seq<Seq<char>>) -> Result<
        ContextInformationPacketView,
        ParsePacketError,
    > {
        ContextInformationPacketView::of_fields(parts)
    }

    fn from_parts(parts: Vec<String>) -> (r: Result<Self, ParsePacketError>) {
        let total = parts.len();
        if total == 0 {
            return Err(ParsePacketError::WrongFormat);
        }
        let ghost all = texts(parts@);
        assert(all[0] == parts@[0]@);
        if is_char(parts[0].as_str(), '0') {
            if total < 2 {
                return Err(ParsePacketError::WrongFormat);
            }
            assert(all[1] == parts@[1]@);
            let count = decode_i64(parts[1].as_str())?;
            let groups = match group_count(total, 5, count) {
                Some(groups) => groups,
                None => {
                    return Err(ParsePacketError::WrongFormat);
                },
            };
            let contexts = decode_users(&parts, groups)?;
            Ok(ContextInformationPacket::ExistingUsers { count, contexts })
        } else if is_char(parts[0].as_str(), '1') {
            if total != 10 {
                return Err(ParsePacketError::WrongFormat);
            }
            assert(all[1] == parts@[1]@ && all[2] == parts@[2]@ && all[3] == parts@[3]@ && all[4]
                == parts@[4]@ && all[5] == parts@[5]@ && all[6] == parts@[6]@ && all[7]
                == parts@[7]@ && all[8] == parts@[8]@ && all[9] == parts@[9]@);
            let timestamp = decode_i64(parts[1].as_str())?;
            let color = Color::from_str(parts[4].as_str())?;
            let user_permissions = UserPermissions::from_str(parts[5].as_str())?;
            let notify = parts[8].parse_sockbool()?;
            let message_flags = MessageFlags::from_str(parts[9].as_str())?;
            Ok(
                ContextInformationPacket::ExistingMessage {
                    timestamp,
                    user_id: parts[2].clone(),
                    username: parts[3].clone(),
                    color,
                    user_permissions,
                    message: parts[6].clone(),
                    sequence_id: parts[7].clone(),
                    notify,
                    message_flags,
                },
            )
        } else if is_char(parts[0].as_str(), '2') {
            if total < 2 {
                return Err(ParsePacketError::WrongFormat);
            }
            assert(all[1] == parts@[1]@);
            let count = decode_i64(parts[1].as_str())?;
            let groups = match group_count(total, 3, count) {
                Some(groups) => groups,
                None => {
                    return Err(ParsePacketError::WrongFormat);
                },
            };
            let contexts = decode_channels(&parts, groups)?;
            Ok(ContextInformationPacket::Channels { count, contexts })
        } else {
            Err(ParsePacketError::WrongFormat)
        }
    }
}

impl ContextInformationPacket {
    /// Whether the count of a list is the number of its records. A list whose
    /// count is another is encoded as it stands, to a line that is not decoded.
    pub fn is_counted(&self) -> (b: bool)
        ensures
            b == self@.is_counted(),
    {
        match self {
            Self::ExistingUsers { count, contexts } => {
                let records = contexts.len();
                *count >= 0 && *count as u64 == records as u64
            },
            Self::ExistingMessage { .. } => true,
            Self::Channels { count, contexts } => {
                let records = contexts.len();
                *count >= 0 && *count as u64 == records as u64
            },
        }
    }

    /// The fields of the packet.
    pub fn to_parts(&self) -> (parts: Vec<String>)
        ensures
            texts(parts@) == self@.fields(),
    {
        let mut parts: Vec<String> = Vec::new();
        proof {
            reveal_strlit("0");
            reveal_strlit("1");
            reveal_strlit("2");
            assert("0"@ =~= seq!['0']);
            assert("1"@ =~= seq!['1']);
            assert("2"@ =~= seq!['2']);
        }
        match self {
            Self::ExistingUsers { count, contexts } => {
                parts.push("0".to_owned());
                parts.push(format_i64(*count));
                let ghost head = texts(parts@);
                let mut i: usize = 0;
                proof {
                    assert(user_views(contexts@).take(0) =~= Seq::<UserContextView>::empty());
                    assert(head + user_fields(Seq::<UserContextView>::empty()) =~= head);
                }
                while i < contexts.len()
                    invariant
                        i <= contexts@.len(),
                        head == seq![seq!['0'], signed_decimal(*count as int)],
                        texts(parts@) == head + user_fields(user_views(contexts@).take(i as int)),
                    decreases contexts@.len() - i,
                {
                    let mut group = contexts[i].to_parts();
                    proof {
                        let done = user_views(contexts@).take(i as int);
                        lemma_user_fields_push(done, contexts@[i as int]@);
                        assert(done.push(contexts@[i as int]@) =~= user_views(contexts@).take(
                            i + 1,
                        ));
                        assert(texts(parts@ + group@) =~= texts(parts@) + texts(group@));
                    }
                    parts.append(&mut group);
                    i = i + 1;
                }
                proof {
                    assert(user_views(contexts@).take(i as int) =~= user_views(contexts@));
                }
            },
            Self::ExistingMessage {
                timestamp,
                user_id,
                username,
                color,
                user_permissions,
                message,
                sequence_id,
                notify,
                message_flags,
            } => {
                parts.push("1".to_owned());
                parts.push(format_i64(*timestamp));
                parts.push(user_id.clone());
                parts.push(username.clone());
                parts.push(color.to_sockstr());
                parts.push(user_permissions.to_sockstr());
                parts.push(message.clone());
                parts.push(sequence_id.clone());
                parts.push(notify.to_sockstr());
                parts.push(message_flags.to_sockstr());
                assert(texts(parts@) =~= self@.fields());
            },
            Self::Channels { count, contexts } => {
                parts.push("2".to_owned());
                parts.push(format_i64(*count));
                let ghost head = texts(parts@);
                let mut i: usize = 0;
                proof {
                    assert(channel_views(contexts@).take(0) =~= Seq::<ChannelContextView>::empty());
                    assert(head + channel_fields(Seq::<ChannelContextView>::empty()) =~= head);
                }
                while i < contexts.len()
                    invariant
                        i <= contexts@.len(),
                        head == seq![seq!['2'], signed_decimal(*count as int)],
                        texts(parts@) == head + channel_fields(
                            channel_views(contexts@).take(i as int),
                        ),
                    decreases contexts@.len() - i,
                {
                    let mut group = contexts[i].to_parts();
                    proof {
                        let done = channel_views(contexts@).take(i as int);
                        lemma_channel_fields_push(done, contexts@[i as int]@);
                        assert(done.push(contexts@[i as int]@) =~= channel_views(contexts@).take(
                            i + 1,
                        ));
                        assert(texts(parts@ + group@) =~= texts(parts@) + texts(group@));
                    }
                    parts.append(&mut group);
                    i = i + 1;
                }
                proof {
                    assert(channel_views(contexts@).take(i as int) =~= channel_views(contexts@));
                }
            },
        }
        parts
    }
}

impl Sockchatable for ContextInformationPacket {
    open spec fn encodable(&self) -> bool {
        true
    }

    open spec fn wire(&self) -> Seq<char> {
        join(self@.fields(), '\t')
    }

    fn to_sockstr(&self) -> (s: String) {
        join_fields(&self.to_parts())
    }
}

} // verus!
