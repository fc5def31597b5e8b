//! The traits of the codec and the small value types that packets embed.

use crate::number::{
    format_u8, i64_of, is_numeric_text, lemma_i64_of_decimal, lemma_u8_of_decimal, parse_i64,
    parse_u8, signed_decimal, u8_of,
};
use crate::text::{
    free_of, is_char, join, join_text, leading_chars, lemma_join_free, lemma_split_join,
    same_text, split_on, split_text, tab_free, texts,
};
use std::str::FromStr;
use vstd::prelude::*;

pub use crate::packets::color::{hex_of, rgb_of, shortest_hex_of, Color, ColorParseError};
pub use crate::packets::context::{ChannelContext, ChannelContextView, UserContext, UserContextView};

verus! {

/// Why a line, or a field of it, was not decoded.
#[derive(Debug, Clone, Copy, PartialEq, Eq, Structural)]
pub enum ParsePacketError {
    /// An unknown tag, sub-tag or keyword, or a number of fields that the
    /// variant does not have.
    WrongFormat,
    /// No fields at all.
    Empty,
    /// A typed field whose text is not a value of its type.
    FieldParsingFail,
}

/// The model of a decoding result: the view of the value, or the error.
pub open spec fn view_of<T: View>(r: Result<T, ParsePacketError>) -> Result<
    T::V,
    ParsePacketError,
> {
    match r {
        Ok(value) => Ok(value@),
        Err(e) => Err(e),
    }
}

/// A decoding result under a constructor: the error stays, the value is wrapped.
pub open spec fn lift<A, B>(r: Result<A, ParsePacketError>, wrap: spec_fn(A) -> B) -> Result<
    B,
    ParsePacketError,
> {
    match r {
        Ok(value) => Ok(wrap(value)),
        Err(e) => Err(e),
    }
}

/// A value with an encoding on the wire.
pub trait Sockchatable {
    /// Whether the value has an encoding at all.
    spec fn encodable(&self) -> bool;

    /// The encoding of the value.
    spec fn wire(&self) -> Seq<char>;

    fn to_sockstr(&self) -> (s: String)
        requires
            self.encodable(),
        ensures
            s@ == self.wire(),
    ;
}

/// A value that is decoded from a run of fields: a packet from the fields
/// that follow its tag, a packet of either family from all fields of a line.
pub trait FromParts: Sized + View {
    /// What the fields decode to.
    spec fn of_parts(parts: Seq<Seq<char>>) -> Result<Self::V, ParsePacketError>;

    fn from_parts(parts: Vec<String>) -> (r: Result<Self, ParsePacketError>)
        ensures
            view_of(r) == Self::of_parts(texts(parts@)),
    ;
}

/// The flag that a field holds: `"0"` is false, `"1"` is true, nothing else is a flag.
pub open spec fn sockbool_of(s: Seq<char>) -> Result<bool, ParsePacketError> {
    if s == seq!['0'] {
        Ok(false)
    } else if s == seq!['1'] {
        Ok(true)
    } else {
        Err(ParsePacketError::FieldParsingFail)
    }
}

/// The field that holds a flag.
pub open spec fn sockbool_text(b: bool) -> Seq<char> {
    if b {
        seq!['1']
    } else {
        seq!['0']
    }
}

/// A text that may hold a flag.
pub trait ParseSockBool {
    /// The text that is read.
    spec fn flag_text(&self) -> Seq<char>;

    fn parse_sockbool(&self) -> (r: Result<bool, ParsePacketError>)
        ensures
            r == sockbool_of(self.flag_text()),
    ;
}

/// Reads a flag.
pub fn decode_sockbool(s: &str) -> (r: Result<bool, ParsePacketError>)
    ensures
        r == sockbool_of(s@),
{
    if is_char(s, '0') {
        Ok(false)
    } else if is_char(s, '1') {
        Ok(true)
    } else {
        Err(ParsePacketError::FieldParsingFail)
    }
}

impl ParseSockBool for String {
    open spec fn flag_text(&self) -> Seq<char> {
        self@
    }

    fn parse_sockbool(&self) -> (r: Result<bool, ParsePacketError>) {
        decode_sockbool(self.as_str())
    }
}

impl Sockchatable for bool {
    open spec fn encodable(&self) -> bool {
        true
    }

    open spec fn wire(&self) -> Seq<char> {
        sockbool_text(*self)
    }

    fn to_sockstr(&self) -> (s: String) {
        proof {
            reveal_strlit("0");
            reveal_strlit("1");
            assert("0"@ =~= seq!['0']);
            assert("1"@ =~= seq!['1']);
        }
        if *self {
            "1".to_owned()
        } else {
            "0".to_owned()
        }
    }
}

/// A flag survives the wire, and its field holds no separator.
pub proof fn lemma_sockbool(b: bool)
    ensures
        sockbool_of(sockbool_text(b)) == Ok::<bool, ParsePacketError>(b),
        tab_free(sockbool_text(b)),
        free_of(sockbool_text(b), ' ', '\x0c'),
{
    assert(seq!['1'][0] == '1');
    assert(seq!['0'][0] == '0');
}

/// The number that a field holds.
pub open spec fn i64_field(s: Seq<char>) -> Result<i64, ParsePacketError> {
    match i64_of(s) {
        Some(n) => Ok(n),
        None => Err(ParsePacketError::FieldParsingFail),
    }
}

/// Reads a number.
pub fn decode_i64(s: &str) -> (r: Result<i64, ParsePacketError>)
    ensures
        r == i64_field(s@),
{
    match parse_i64(s) {
        Some(n) => Ok(n),
        None => Err(ParsePacketError::FieldParsingFail),
    }
}

/// A number survives the wire, and its field holds no separator and is no marker.
pub proof fn lemma_i64_field(n: i64)
    ensures
        i64_field(signed_decimal(n as int)) == Ok::<i64, ParsePacketError>(n),
        tab_free(signed_decimal(n as int)),
        signed_decimal(n as int) != seq!['y'],
        signed_decimal(n as int) != seq!['n'],
{
    lemma_i64_of_decimal(n);
    let s = signed_decimal(n as int);
    assert(seq!['y'][0] == 'y');
    assert(seq!['n'][0] == 'n');
    assert(is_numeric_text(s));
    assert(s[0] == s[0]);
}

/// Why an authentication was refused.
#[derive(Debug, Clone, Copy, PartialEq, Eq, Structural)]
pub enum BadAuthReason {
    AuthFail,
    UserFail,
    SockFail,
    JoinFail,
}

impl BadAuthReason {
    /// The keyword of the reason.
    pub open spec fn text(self) -> Seq<char> {
        match self {
            BadAuthReason::AuthFail => "authfail"@,
            BadAuthReason::UserFail => "userfail"@,
            BadAuthReason::SockFail => "sockfail"@,
            BadAuthReason::JoinFail => "joinfail"@,
        }
    }

    /// The reason that a keyword names.
    pub open spec fn of_text(s: Seq<char>) -> Result<BadAuthReason, ParsePacketError> {
        if s == "authfail"@ {
            Ok(BadAuthReason::AuthFail)
        } else if s == "joinfail"@ {
            Ok(BadAuthReason::JoinFail)
        } else if s == "sockfail"@ {
            Ok(BadAuthReason::SockFail)
        } else if s == "userfail"@ {
            Ok(BadAuthReason::UserFail)
        } else {
            Err(ParsePacketError::WrongFormat)
        }
    }
}

impl FromStr for BadAuthReason {
    type Err = ParsePacketError;

    fn from_str(s: &str) -> (r: Result<Self, Self::Err>)
        ensures
            r == BadAuthReason::of_text(s@),
    {
        if same_text(s, "authfail") {
            Ok(BadAuthReason::AuthFail)
        } else if same_text(s, "joinfail") {
            Ok(BadAuthReason::JoinFail)
        } else if same_text(s, "sockfail") {
            Ok(BadAuthReason::SockFail)
        } else if same_text(s, "userfail") {
            Ok(BadAuthReason::UserFail)
        } else {
            Err(ParsePacketError::WrongFormat)
        }
    }
}

impl Sockchatable for BadAuthReason {
    open spec fn encodable(&self) -> bool {
        true
    }

    open spec fn wire(&self) -> Seq<char> {
        self.text()
    }

    fn to_sockstr(&self) -> (s: String) {
        match self {
            Self::AuthFail => "authfail".to_owned(),
            Self::JoinFail => "joinfail".to_owned(),
            Self::SockFail => "sockfail".to_owned(),
            Self::UserFail => "userfail".to_owned(),
        }
    }
}

impl Default for BadAuthReason {
    fn default() -> (r: Self)
        ensures
            r == BadAuthReason::SockFail,
    {
        BadAuthReason::SockFail
    }
}

impl BadAuthReason {
    /// The name of the variant.
    pub fn name(&self) -> (s: String)
        ensures
            s@ == match self {
                BadAuthReason::AuthFail => "AuthFail"@,
                BadAuthReason::UserFail => "UserFail"@,
                BadAuthReason::SockFail => "SockFail"@,
                BadAuthReason::JoinFail => "JoinFail"@,
            },
    {
        match self {
            BadAuthReason::AuthFail => "AuthFail".to_owned(),
            BadAuthReason::UserFail => "UserFail".to_owned(),
            BadAuthReason::SockFail => "SockFail".to_owned(),
            BadAuthReason::JoinFail => "JoinFail".to_owned(),
        }
    }

    /// A reason survives the wire, and its keyword holds no tab.
    pub proof fn lemma_text(self)
        ensures
            Self::of_text(self.text()) == Ok::<BadAuthReason, ParsePacketError>(self),
            tab_free(self.text()),
    {
        reveal_strlit("authfail");
        reveal_strlit("userfail");
        reveal_strlit("sockfail");
        reveal_strlit("joinfail");
        assert("authfail"@[0] == 'a');
        assert("userfail"@[0] == 'u');
        assert("sockfail"@[0] == 's');
        assert("joinfail"@[0] == 'j');
    }
}

/// Why a user left.
#[derive(Debug, Clone, Copy, PartialEq, Eq, Structural)]
pub enum DisconnectReason {
    Leave,
    Timeout,
    Kick,
    Flood,
}

impl DisconnectReason {
    /// The keyword of the reason.
    pub open spec fn text(self) -> Seq<char> {
        match self {
            DisconnectReason::Leave => "leave"@,
            DisconnectReason::Timeout => "timeout"@,
            DisconnectReason::Kick => "kick"@,
            DisconnectReason::Flood => "flood"@,
        }
    }

    /// The reason that a keyword names.
    pub open spec fn of_text(s: Seq<char>) -> Result<DisconnectReason, ParsePacketError> {
        if s == "leave"@ {
            Ok(DisconnectReason::Leave)
        } else if s == "kick"@ {
            Ok(DisconnectReason::Kick)
        } else if s == "flood"@ {
            Ok(DisconnectReason::Flood)
        } else if s == "timeout"@ {
            Ok(DisconnectReason::Timeout)
        } else {
            Err(ParsePacketError::WrongFormat)
        }
    }

    /// A reason survives the wire, and its keyword holds no tab.
    pub proof fn lemma_text(self)
        ensures
            Self::of_text(self.text()) == Ok::<DisconnectReason, ParsePacketError>(self),
            tab_free(self.text()),
    {
        reveal_strlit("leave");
        reveal_strlit("timeout");
        reveal_strlit("kick");
        reveal_strlit("flood");
        assert("leave"@[0] == 'l');
        assert("timeout"@[0] == 't');
        assert("kick"@[0] == 'k');
        assert("flood"@[0] == 'f');
    }
}

impl FromStr for DisconnectReason {
    type Err = ParsePacketError;

    fn from_str(s: &str) -> (r: Result<Self, Self::Err>)
        ensures
            r == DisconnectReason::of_text(s@),
    {
        if same_text(s, "leave") {
            Ok(DisconnectReason::Leave)
        } else if same_text(s, "kick") {
            Ok(DisconnectReason::Kick)
        } else if same_text(s, "flood") {
            Ok(DisconnectReason::Flood)
        } else if same_text(s, "timeout") {
            Ok(DisconnectReason::Timeout)
        } else {
            Err(ParsePacketError::WrongFormat)
        }
    }
}

impl Sockchatable for DisconnectReason {
    open spec fn encodable(&self) -> bool {
        true
    }

    open spec fn wire(&self) -> Seq<char> {
        self.text()
    }

    fn to_sockstr(&self) -> (s: String) {
        match self {
            Self::Leave => "leave".to_owned(),
            Self::Kick => "kick".to_owned(),
            Self::Flood => "flood".to_owned(),
            Self::Timeout => "timeout".to_owned(),
        }
    }
}

impl Default for DisconnectReason {
    fn default() -> (r: Self)
        ensures
            r == DisconnectReason::Leave,
    {
        DisconnectReason::Leave
    }
}

/// What a user may do.
#[derive(Debug, Clone, Copy, PartialEq, Eq, Structural)]
pub struct UserPermissions {
    pub rank: u8,
    pub can_moderate: bool,
    pub can_logs: bool,
    pub can_nickname: bool,
    pub channel_permissions: u8,
}

impl View for UserPermissions {
    type V = UserPermissions;

    open spec fn view(&self) -> UserPermissions {
        *self
    }
}

impl UserPermissions {
    /// The five texts of the field, in order.
    pub open spec fn parts(self) -> Seq<Seq<char>> {
        seq![
            signed_decimal(self.rank as int),
            sockbool_text(self.can_moderate),
            sockbool_text(self.can_logs),
            sockbool_text(self.can_nickname),
            signed_decimal(self.channel_permissions as int),
        ]
    }

    /// The field: the five texts with a space between neighbours.
    pub open spec fn text(self) -> Seq<char> {
        join(self.parts(), ' ')
    }

    /// The permissions that five texts denote.
    pub open spec fn of_parts(parts: Seq<Seq<char>>) -> Result<UserPermissions, ParsePacketError> {
        if parts.len() == 5 && u8_of(parts[0]) is Some && sockbool_of(parts[1]) is Ok
            && sockbool_of(parts[2]) is Ok && sockbool_of(parts[3]) is Ok && u8_of(
            parts[4],
        ) is Some {
            Ok(
                UserPermissions {
                    rank: u8_of(parts[0])->0,
                    can_moderate: sockbool_of(parts[1])->Ok_0,
                    can_logs: sockbool_of(parts[2])->Ok_0,
                    can_nickname: sockbool_of(parts[3])->Ok_0,
                    channel_permissions: u8_of(parts[4])->0,
                },
            )
        } else {
            Err(ParsePacketError::FieldParsingFail)
        }
    }

    /// The permissions that a field holds. Its texts are separated by a space
    /// or a form feed each.
    pub open spec fn of_text(s: Seq<char>) -> Result<UserPermissions, ParsePacketError> {
        Self::of_parts(split_on(s, ' ', '\x0c'))
    }

    /// Permissions survive the wire, and their field holds no tab.
    pub proof fn lemma_text(self)
        ensures
            Self::of_text(self.text()) == Ok::<UserPermissions, ParsePacketError>(self),
            tab_free(self.text()),
    {
        let parts = self.parts();
        lemma_u8_of_decimal(self.rank);
        lemma_u8_of_decimal(self.channel_permissions);
        lemma_sockbool(self.can_moderate);
        lemma_sockbool(self.can_logs);
        lemma_sockbool(self.can_nickname);
        assert forall|i: int| 0 <= i < parts.len() implies free_of(#[trigger] parts[i], ' ', '\x0c')
            && tab_free(parts[i]) by {
            let p = parts[i];
            if i == 0 || i == 4 {
                assert(is_numeric_text(p));
                assert forall|j: int| 0 <= j < p.len() implies p[j] != ' ' && p[j] != '\x0c'
                    && p[j] != '\t' by {
                    assert(p[j] == p[j]);
                }
            }
        }
        lemma_split_join(parts, ' ', ' ', '\x0c');
        lemma_join_free(parts, ' ', '\t', '\t');
    }
}

impl FromStr for UserPermissions {
    type Err = ParsePacketError;

    fn from_str(s: &str) -> (r: Result<Self, Self::Err>)
        ensures
            r == UserPermissions::of_text(s@),
    {
        let parts = split_text(s, ' ', '\x0c');
        if parts.len() != 5 {
            return Err(ParsePacketError::FieldParsingFail);
        }
        let ghost model = texts(parts@);
        assert(model[0] == parts@[0]@ && model[1] == parts@[1]@ && model[2] == parts@[2]@
            && model[3] == parts@[3]@ && model[4] == parts@[4]@);
        let rank = match parse_u8(parts[0].as_str()) {
            Some(n) => n,
            None => {
                return Err(ParsePacketError::FieldParsingFail);
            },
        };
        let can_moderate = decode_sockbool(parts[1].as_str())?;
        let can_logs = decode_sockbool(parts[2].as_str())?;
        let can_nickname = decode_sockbool(parts[3].as_str())?;
        let channel_permissions = match parse_u8(parts[4].as_str()) {
            Some(n) => n,
            None => {
                return Err(ParsePacketError::FieldParsingFail);
            },
        };
        Ok(UserPermissions { rank, can_moderate, can_logs, can_nickname, channel_permissions })
    }
}

impl Sockchatable for UserPermissions {
    open spec fn encodable(&self) -> bool {
        true
    }

    open spec fn wire(&self) -> Seq<char> {
        self.text()
    }

    fn to_sockstr(&self) -> (s: String) {
        let mut parts: Vec<String> = Vec::new();
        parts.push(format_u8(self.rank));
        parts.push(self.can_moderate.to_sockstr());
        parts.push(self.can_logs.to_sockstr());
        parts.push(self.can_nickname.to_sockstr());
        parts.push(format_u8(self.channel_permissions));
        proof {
            reveal_strlit(" ");
            assert(" "@ =~= seq![' ']);
            assert(texts(parts@) =~= self.parts());
        }
        join_text(&parts, " ", Ghost(' '))
    }
}

impl Default for UserPermissions {
    fn default() -> (r: Self)
        ensures
            r == (UserPermissions {
                rank: 0,
                can_moderate: false,
                can_logs: false,
                can_nickname: false,
                channel_permissions: 0,
            }),
    {
        UserPermissions {
            rank: 0,
            can_moderate: false,
            can_logs: false,
            can_nickname: false,
            channel_permissions: 0,
        }
    }
}

/// The character that holds a flag in a flag string.
pub open spec fn flag_char(b: bool) -> char {
    if b {
        '1'
    } else {
        '0'
    }
}

/// The flag that a character of a flag string holds.
pub open spec fn flag_of(c: char) -> Option<bool> {
    if c == '0' {
        Some(false)
    } else if c == '1' {
        Some(true)
    } else {
        None
    }
}

fn decode_flag(c: char) -> (r: Result<bool, ParsePacketError>)
    ensures
        match r {
            Ok(b) => flag_of(c) == Some(b),
            Err(e) => flag_of(c) is None && e == ParsePacketError::FieldParsingFail,
        },
{
    if c == '0' {
        Ok(false)
    } else if c == '1' {
        Ok(true)
    } else {
        Err(ParsePacketError::FieldParsingFail)
    }
}

/// How a message is shown.
#[derive(Debug, Clone, Copy, PartialEq, Eq, Structural)]
pub struct MessageFlags {
    pub bold: bool,
    pub cursive: bool,
    pub underlined: bool,
    pub colon: bool,
    pub private: bool,
}

impl View for MessageFlags {
    type V = MessageFlags;

    open spec fn view(&self) -> MessageFlags {
        *self
    }
}

impl MessageFlags {
    /// The field: one character for each flag, in order.
    pub open spec fn text(self) -> Seq<char> {
        seq![
            flag_char(self.bold),
            flag_char(self.cursive),
            flag_char(self.underlined),
            flag_char(self.colon),
            flag_char(self.private),
        ]
    }

    /// The flags that the first five characters of a field hold. What follows
    /// them is not read.
    pub open spec fn of_text(s: Seq<char>) -> Result<MessageFlags, ParsePacketError> {
        if s.len() >= 5 && flag_of(s[0]) is Some && flag_of(s[1]) is Some && flag_of(s[2]) is Some
            && flag_of(s[3]) is Some && flag_of(s[4]) is Some {
            Ok(
                MessageFlags {
                    bold: flag_of(s[0])->0,
                    cursive: flag_of(s[1])->0,
                    underlined: flag_of(s[2])->0,
                    colon: flag_of(s[3])->0,
                    private: flag_of(s[4])->0,
                },
            )
        } else {
            Err(ParsePacketError::FieldParsingFail)
        }
    }

    /// Flags survive the wire, in a field of five characters without a tab.
    pub proof fn lemma_text(self)
        ensures
            Self::of_text(self.text()) == Ok::<MessageFlags, ParsePacketError>(self),
            self.text().len() == 5,
            tab_free(self.text()),
    {
    }
}

impl FromStr for MessageFlags {
    type Err = ParsePacketError;

    fn from_str(s: &str) -> (r: Result<Self, Self::Err>)
        ensures
            r == MessageFlags::of_text(s@),
    {
        let head = match leading_chars(s, 5) {
            Some(head) => head,
            None => {
                return Err(ParsePacketError::FieldParsingFail);
            },
        };
        let bold = decode_flag(head[0])?;
        let cursive = decode_flag(head[1])?;
        let underlined = decode_flag(head[2])?;
        let colon = decode_flag(head[3])?;
        let private = decode_flag(head[4])?;
        Ok(MessageFlags { bold, cursive, underlined, colon, private })
    }
}

impl Sockchatable for MessageFlags {
    open spec fn encodable(&self) -> bool {
        true
    }

    open spec fn wire(&self) -> Seq<char> {
        self.text()
    }

    fn to_sockstr(&self) -> (s: String) {
        proof {
            reveal_strlit("0");
            reveal_strlit("1");
            assert("0"@ =~= seq!['0']);
            assert("1"@ =~= seq!['1']);
        }
        let mut output = String::new();
        output.append(if self.bold { "1" } else { "0" });
        output.append(if self.cursive { "1" } else { "0" });
        output.append(if self.underlined { "1" } else { "0" });
        output.append(if self.colon { "1" } else { "0" });
        output.append(if self.private { "1" } else { "0" });
        assert(output@ =~= self.text());
        output
    }
}

impl Default for MessageFlags {
    fn default() -> (r: Self)
        ensures
            r == (MessageFlags {
                bold: false,
                cursive: false,
                underlined: false,
                colon: false,
                private: false,
            }),
    {
        MessageFlags {
            bold: false,
            cursive: false,
            underlined: false,
            colon: false,
            private: false,
        }
    }
}

} // verus!
