//! Colours: kept as the text that stood on the wire, and read as channels
//! on demand.

use crate::number::digit_char;
use crate::packets::types::{view_of, ParsePacketError, Sockchatable};
use std::str::FromStr;
use vstd::prelude::*;
use vstd::utf8::is_ascii_chars;

verus! {

/// The error of a colour accessor: the text is no colour.
#[derive(Debug, Clone, Copy, PartialEq, Eq, Structural)]
pub enum ColorParseError {
    /// The text is not in any colour format that is read.
    Unrecognized,
}

/// The error of `csscolorparser` for a text that it reads no colour from.
/// Nothing is claimed of what it holds: it is carried from the call to where
/// it becomes a `ColorParseError`.
#[verifier::external_type_specification]
#[verifier::external_body]
pub struct ExParseColorError(csscolorparser::ParseColorError);

/// The red, green, blue and alpha channels, from 0 to 255 each, of the colour
/// that `csscolorparser` reads from `text`; `None` where it reads none.
pub uninterp spec fn html_rgba8(text: Seq<char>) -> Option<Seq<u8>>;

/// Calls `csscolorparser::Color::from_html` on the text and, where it gives a
/// colour, `Color::to_rgba8` on that colour. Claimed: whether a colour is read,
/// and its four channels, depend on the text alone, so that `html_rgba8` names
/// them. The text is to be ASCII: the parser cuts a parameter of a function
/// form at byte offsets, which panics inside a character of several bytes.
#[verifier::external_body]
fn html_channels(text: &str) -> (r: Result<[u8; 4], csscolorparser::ParseColorError>)
    requires
        is_ascii_chars(text@),
    ensures
        match r {
            Ok(channels) => html_rgba8(text@) == Some(channels@),
            Err(_) => html_rgba8(text@) is None,
        },
{
    match csscolorparser::Color::from_html(text) {
        Ok(color) => Ok(color.to_rgba8()),
        Err(e) => Err(e),
    }
}

/// The channels of the colour that a text holds. Only a text of ASCII
/// characters holds one: a text with any other character is no colour here,
/// also where it is a colour between white space that is not ASCII.
pub open spec fn color_channels(text: Seq<char>) -> Option<Seq<u8>> {
    if is_ascii_chars(text) {
        html_rgba8(text)
    } else {
        None
    }
}

/// The upper-case hexadecimal digit of `n`, for `n` below sixteen.
pub open spec fn hex_digit(n: nat) -> char {
    if n < 10 {
        digit_char(n)
    } else if n == 10 {
        'A'
    } else if n == 11 {
        'B'
    } else if n == 12 {
        'C'
    } else if n == 13 {
        'D'
    } else if n == 14 {
        'E'
    } else {
        'F'
    }
}

/// The two hexadecimal digits of a channel.
pub open spec fn hex_pair(channel: u8) -> Seq<char> {
    seq![hex_digit((channel / 16) as nat), hex_digit((channel % 16) as nat)]
}

/// The two hexadecimal digits of a channel are the same digit.
pub open spec fn is_doubled(channel: u8) -> bool {
    channel / 16 == channel % 16
}

/// `#` and the hexadecimal digits of the channels, two for each.
pub open spec fn hex_text(channels: Seq<u8>) -> Seq<char>
    decreases channels.len(),
{
    if channels.len() == 0 {
        seq!['#']
    } else {
        hex_text(channels.drop_last()) + hex_pair(channels.last())
    }
}

/// `#` and one hexadecimal digit for each channel.
pub open spec fn short_hex_text(channels: Seq<u8>) -> Seq<char>
    decreases channels.len(),
{
    if channels.len() == 0 {
        seq!['#']
    } else {
        short_hex_text(channels.drop_last()).push(hex_digit((channels.last() % 16) as nat))
    }
}

/// Every channel has a doubled digit.
pub open spec fn all_doubled(channels: Seq<u8>) -> bool {
    forall|i: int| 0 <= i < channels.len() ==> is_doubled(#[trigger] channels[i])
}

/// The shortest hexadecimal form: one digit for each channel where every
/// channel has a doubled digit, two for each otherwise.
pub open spec fn shortest_hex_text(channels: Seq<u8>) -> Seq<char> {
    if all_doubled(channels) {
        short_hex_text(channels)
    } else {
        hex_text(channels)
    }
}

fn hex_digit_str(n: u8) -> (s: &'static str)
    requires
        n < 16,
    ensures
        s@ == seq![hex_digit(n as nat)],
{
    proof {
        reveal_strlit("0");
        reveal_strlit("1");
        reveal_strlit("2");
        reveal_strlit("3");
        reveal_strlit("4");
        reveal_strlit("5");
        reveal_strlit("6");
        reveal_strlit("7");
        reveal_strlit("8");
        reveal_strlit("9");
        reveal_strlit("A");
        reveal_strlit("B");
        reveal_strlit("C");
        reveal_strlit("D");
        reveal_strlit("E");
        reveal_strlit("F");
    }
    let s = if n == 0 {
        "0"
    } else if n == 1 {
        "1"
    } else if n == 2 {
        "2"
    } else if n == 3 {
        "3"
    } else if n == 4 {
        "4"
    } else if n == 5 {
        "5"
    } else if n == 6 {
        "6"
    } else if n == 7 {
        "7"
    } else if n == 8 {
        "8"
    } else if n == 9 {
        "9"
    } else if n == 10 {
        "A"
    } else if n == 11 {
        "B"
    } else if n == 12 {
        "C"
    } else if n == 13 {
        "D"
    } else if n == 14 {
        "E"
    } else {
        "F"
    };
    assert(s@ =~= seq![hex_digit(n as nat)]);
    s
}

/// The full form has two digits for each channel after its `#`, the short
/// form one.
pub proof fn lemma_hex_text_len(channels: Seq<u8>)
    ensures
        hex_text(channels).len() == 1 + 2 * channels.len(),
        short_hex_text(channels).len() == 1 + channels.len(),
    decreases channels.len(),
{
    if channels.len() > 0 {
        lemma_hex_text_len(channels.drop_last());
    }
}

/// The full hexadecimal form of the channels.
pub fn hex_of(channels: &[u8]) -> (s: String)
    ensures
        s@ == hex_text(channels@),
        s@.len() == 1 + 2 * channels@.len(),
{
    proof {
        lemma_hex_text_len(channels@);
        reveal_strlit("#");
        assert("#"@ =~= seq!['#']);
        assert(channels@.take(0) =~= Seq::<u8>::empty());
    }
    let mut out = "#".to_owned();
    let mut i: usize = 0;
    while i < channels.len()
        invariant
            i <= channels@.len(),
            out@ == hex_text(channels@.take(i as int)),
        decreases channels@.len() - i,
    {
        let channel = channels[i];
        out.append(hex_digit_str(channel / 16));
        out.append(hex_digit_str(channel % 16));
        proof {
            let grown = channels@.take(i + 1);
            assert(grown.drop_last() =~= channels@.take(i as int));
            assert(grown.last() == channel);
            assert(out@ =~= hex_text(grown.drop_last()) + hex_pair(grown.last()));
        }
        i = i + 1;
    }
    proof {
        assert(channels@.take(i as int) =~= channels@);
    }
    out
}

/// The shortest hexadecimal form of the channels.
pub fn shortest_hex_of(channels: &[u8]) -> (s: String)
    ensures
        s@ == shortest_hex_text(channels@),
{
    let ghost all = channels@;
    let mut doubled = true;
    let mut i: usize = 0;
    while i < channels.len()
        invariant
            i <= channels@.len(),
            all == channels@,
            doubled == all_doubled(all.take(i as int)),
        decreases channels@.len() - i,
    {
        if channels[i] / 16 != channels[i] % 16 {
            doubled = false;
        }
        proof {
            let before = all.take(i as int);
            let grown = all.take(i + 1);
            assert(grown[i as int] == all[i as int]);
            assert forall|j: int| 0 <= j < before.len() implies before[j] == grown[j] by {}
            if all_doubled(grown) {
                assert forall|j: int| 0 <= j < before.len() implies is_doubled(
                    #[trigger] before[j],
                ) by {
                    assert(is_doubled(grown[j]));
                }
            }
            if all_doubled(before) && is_doubled(all[i as int]) {
                assert forall|j: int| 0 <= j < grown.len() implies is_doubled(
                    #[trigger] grown[j],
                ) by {
                    if j < i {
                        assert(is_doubled(before[j]));
                    }
                }
            }
        }
        i = i + 1;
    }
    proof {
        assert(all.take(i as int) =~= all);
    }
    if !doubled {
        return hex_of(channels);
    }
    proof {
        reveal_strlit("#");
        assert("#"@ =~= seq!['#']);
        assert(all.take(0) =~= Seq::<u8>::empty());
    }
    let mut out = "#".to_owned();
    let mut k: usize = 0;
    while k < channels.len()
        invariant
            k <= channels@.len(),
            all == channels@,
            out@ == short_hex_text(all.take(k as int)),
        decreases channels@.len() - k,
    {
        out.append(hex_digit_str(channels[k] % 16));
        proof {
            let grown = all.take(k + 1);
            assert(grown.drop_last() =~= all.take(k as int));
            assert(grown.last() == all[k as int]);
            assert(out@ =~= short_hex_text(grown.drop_last()).push(
                hex_digit((grown.last() % 16) as nat),
            ));
        }
        k = k + 1;
    }
    proof {
        assert(all.take(k as int) =~= all);
    }
    out
}

/// The first three of four channels.
pub fn rgb_of(channels: &[u8; 4]) -> (rgb: [u8; 3])
    ensures
        rgb@ == channels@.take(3),
{
    let rgb = [channels[0], channels[1], channels[2]];
    assert(rgb@ =~= channels@.take(3));
    rgb
}

/// A colour, kept as the text that stood on the wire.
#[derive(Debug, Clone, PartialEq, Eq)]
pub struct Color {
    pub value: String,
}

impl View for Color {
    type V = Seq<char>;

    open spec fn view(&self) -> Seq<char> {
        self.value@
    }
}

impl Color {
    /// The colour that a field holds: any text, kept as it is.
    pub open spec fn of_text(s: Seq<char>) -> Result<Seq<char>, ParsePacketError> {
        Ok(s)
    }

    fn parse(&self) -> (r: Result<[u8; 4], ColorParseError>)
        ensures
            match r {
                Ok(channels) => color_channels(self@) == Some(channels@),
                Err(_) => color_channels(self@) is None,
            },
    {
        let text = self.value.as_str();
        if !text.is_ascii() {
            return Err(ColorParseError::Unrecognized);
        }
        match html_channels(text) {
            Ok(channels) => Ok(channels),
            Err(_) => Err(ColorParseError::Unrecognized),
        }
    }

    /// The text of the colour as it stood on the wire.
    pub fn raw(&self) -> (s: String)
        ensures
            s@ == self@,
    {
        self.value.clone()
    }

    /// `#RRGGBB`, in upper case.
    pub fn as_hex(&self) -> (r: Result<String, ColorParseError>)
        ensures
            match r {
                Ok(s) => {
                    &&& color_channels(self@) matches Some(channels)
                    &&& channels.len() == 4
                    &&& s@ == hex_text(channels.take(3))
                    &&& s@.len() == 7
                },
                Err(_) => color_channels(self@) is None,
            },
    {
        let channels = self.parse()?;
        let rgb = rgb_of(&channels);
        Ok(hex_of(rgb.as_slice()))
    }

    /// `#RRGGBBAA`, in upper case.
    pub fn as_hexa(&self) -> (r: Result<String, ColorParseError>)
        ensures
            match r {
                Ok(s) => {
                    &&& color_channels(self@) matches Some(channels)
                    &&& channels.len() == 4
                    &&& s@ == hex_text(channels)
                    &&& s@.len() == 9
                },
                Err(_) => color_channels(self@) is None,
            },
    {
        let channels = self.parse()?;
        Ok(hex_of(channels.as_slice()))
    }

    /// `#RGB` where each of the three channels has a doubled digit, `#RRGGBB` otherwise.
    pub fn as_shex(&self) -> (r: Result<String, ColorParseError>)
        ensures
            match r {
                Ok(s) => {
                    &&& color_channels(self@) matches Some(channels)
                    &&& channels.len() == 4
                    &&& s@ == shortest_hex_text(channels.take(3))
                },
                Err(_) => color_channels(self@) is None,
            },
    {
        let channels = self.parse()?;
        let rgb = rgb_of(&channels);
        Ok(shortest_hex_of(rgb.as_slice()))
    }

    /// `#RGBA` where each of the four channels has a doubled digit, `#RRGGBBAA` otherwise.
    pub fn as_shexa(&self) -> (r: Result<String, ColorParseError>)
        ensures
            match r {
                Ok(s) => {
                    &&& color_channels(self@) matches Some(channels)
                    &&& channels.len() == 4
                    &&& s@ == shortest_hex_text(channels)
                },
                Err(_) => color_channels(self@) is None,
            },
    {
        let channels = self.parse()?;
        Ok(shortest_hex_of(channels.as_slice()))
    }

    /// The red, green and blue channels.
    pub fn as_rgb(&self) -> (r: Result<[u8; 3], ColorParseError>)
        ensures
            match r {
                Ok(rgb) => {
                    &&& color_channels(self@) matches Some(channels)
                    &&& channels.len() == 4
                    &&& rgb@ == channels.take(3)
                },
                Err(_) => color_channels(self@) is None,
            },
    {
        let channels = self.parse()?;
        Ok(rgb_of(&channels))
    }

    /// The red, green, blue and alpha channels.
    pub fn as_rgba(&self) -> (r: Result<[u8; 4], ColorParseError>)
        ensures
            match r {
                Ok(rgba) => color_channels(self@) == Some(rgba@),
                Err(_) => color_channels(self@) is None,
            },
    {
        self.parse()
    }
}

/// A colour is decoded from any text, and encodes to the text that it was
/// decoded from, character for character.
pub proof fn lemma_color_keeps_text(text: Seq<char>, color: Color)
    requires
        Color::of_text(text) == Ok::<Seq<char>, ParsePacketError>(color@),
    ensures
        color.wire() == text,
{
}

impl FromStr for Color {
    type Err = ParsePacketError;

    fn from_str(s: &str) -> (r: Result<Self, Self::Err>)
        ensures
            view_of(r) == Color::of_text(s@),
    {
        Ok(Color { value: s.to_owned() })
    }
}

impl Sockchatable for Color {
    open spec fn encodable(&self) -> bool {
        true
    }

    open spec fn wire(&self) -> Seq<char> {
        self@
    }

    fn to_sockstr(&self) -> (s: String) {
        self.value.clone()
    }
}

impl Default for Color {
    fn default() -> (r: Self)
        ensures
            r@ == "FFF"@,
    {
        Color { value: "FFF".to_owned() }
    }
}

} // verus!
