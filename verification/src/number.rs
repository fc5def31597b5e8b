//! Decimal numbers on the wire: an optional sign followed by ASCII digits.

use vstd::prelude::*;

verus! {

/// `c` is one of `'0'` to `'9'`.
pub open spec fn is_digit(c: char) -> bool {
    48 <= c as u32 <= 57
}

/// The number that the digit `c` stands for.
pub open spec fn digit_value(c: char) -> nat {
    (c as u32 - 48) as nat
}

/// The digit that stands for `d`, for `d` below ten.
pub open spec fn digit_char(d: nat) -> char {
    if d == 0 {
        '0'
    } else if d == 1 {
        '1'
    } else if d == 2 {
        '2'
    } else if d == 3 {
        '3'
    } else if d == 4 {
        '4'
    } else if d == 5 {
        '5'
    } else if d == 6 {
        '6'
    } else if d == 7 {
        '7'
    } else if d == 8 {
        '8'
    } else {
        '9'
    }
}

/// Every character of `s` is a digit.
pub open spec fn all_digits(s: Seq<char>) -> bool {
    forall|i: int| 0 <= i < s.len() ==> is_digit(#[trigger] s[i])
}

/// The number that a text of digits denotes, most significant digit first.
pub open spec fn digits_value(s: Seq<char>) -> nat
    decreases s.len(),
{
    if s.len() == 0 {
        0
    } else {
        digits_value(s.drop_last()) * 10 + digit_value(s.last())
    }
}

/// The digits of `n`, without leading zeros; `"0"` for zero.
pub open spec fn decimal(n: nat) -> Seq<char>
    decreases n,
{
    if n < 10 {
        seq![digit_char(n)]
    } else {
        decimal(n / 10) + seq![digit_char(n % 10)]
    }
}

/// The decimal text of an integer: a minus sign before the digits of a negative one.
pub open spec fn signed_decimal(n: int) -> Seq<char> {
    if n < 0 {
        seq!['-'] + decimal((-n) as nat)
    } else {
        decimal(n as nat)
    }
}

/// How many characters of `s` are its sign: a leading `+`, or a leading `-`
/// where a minus sign is accepted.
pub open spec fn sign_len(s: Seq<char>, signed: bool) -> int {
    if s.len() > 0 && (s[0] == '+' || (signed && s[0] == '-')) {
        1
    } else {
        0
    }
}

/// `s` starts with an accepted minus sign.
pub open spec fn is_negative(s: Seq<char>, signed: bool) -> bool {
    signed && s.len() > 0 && s[0] == '-'
}

/// The integer that `s` denotes: an optional sign, then at least one digit and
/// nothing else, with a value from `-neg_limit` to `pos_limit`. `None` for any
/// other text.
pub open spec fn integer_of(s: Seq<char>, signed: bool, pos_limit: nat, neg_limit: nat) -> Option<
    int,
> {
    let body = s.skip(sign_len(s, signed));
    let value = digits_value(body);
    if body.len() == 0 || !all_digits(body) {
        None
    } else if is_negative(s, signed) {
        if value <= neg_limit {
            Some(-(value as int))
        } else {
            None
        }
    } else {
        if value <= pos_limit {
            Some(value as int)
        } else {
            None
        }
    }
}

/// The `i64` that `s` denotes, if any.
pub open spec fn i64_of(s: Seq<char>) -> Option<i64> {
    match integer_of(s, true, 0x7fff_ffff_ffff_ffff, 0x8000_0000_0000_0000) {
        Some(v) => Some(v as i64),
        None => None,
    }
}

/// The `u8` that `s` denotes, if any. A minus sign is not accepted.
pub open spec fn u8_of(s: Seq<char>) -> Option<u8> {
    match integer_of(s, false, 255, 0) {
        Some(v) => Some(v as u8),
        None => None,
    }
}

/// Every character of `s` is a digit or a minus sign.
pub open spec fn is_numeric_text(s: Seq<char>) -> bool {
    forall|i: int| 0 <= i < s.len() ==> is_digit(#[trigger] s[i]) || s[i] == '-'
}

pub proof fn lemma_digit_char(d: nat)
    requires
        d < 10,
    ensures
        is_digit(digit_char(d)),
        digit_value(digit_char(d)) == d,
{
}

/// A prefix of a text of digits denotes no more than the whole text.
pub proof fn lemma_digits_value_prefix(s: Seq<char>, k: int)
    requires
        0 <= k <= s.len(),
    ensures
        digits_value(s.take(k)) <= digits_value(s),
    decreases s.len(),
{
    if k == s.len() {
        assert(s.take(k) =~= s);
    } else {
        assert(s.drop_last().take(k) =~= s.take(k));
        lemma_digits_value_prefix(s.drop_last(), k);
    }
}

/// The digits of `n` are digits, and denote `n`.
pub proof fn lemma_decimal_value(n: nat)
    ensures
        decimal(n).len() > 0,
        all_digits(decimal(n)),
        digits_value(decimal(n)) == n,
    decreases n,
{
    if n < 10 {
        lemma_digit_char(n);
        let s = decimal(n);
        assert(s.drop_last() =~= Seq::<char>::empty());
        assert(digits_value(s.drop_last()) == 0);
    } else {
        lemma_decimal_value(n / 10);
        lemma_digit_char(n % 10);
        let s = decimal(n);
        assert(s.drop_last() =~= decimal(n / 10));
        assert(s.last() == digit_char(n % 10));
    }
}

/// Reading the decimal text of an integer gives the integer back.
pub proof fn lemma_integer_of_decimal(n: int, pos_limit: nat, neg_limit: nat)
    requires
        -neg_limit <= n <= pos_limit,
    ensures
        integer_of(signed_decimal(n), true, pos_limit, neg_limit) == Some(n),
        n >= 0 ==> integer_of(signed_decimal(n), false, pos_limit, neg_limit) == Some(n),
        is_numeric_text(signed_decimal(n)),
        signed_decimal(n).len() > 0,
{
    let s = signed_decimal(n);
    if n < 0 {
        let m = (-n) as nat;
        lemma_decimal_value(m);
        assert(s.skip(1) =~= decimal(m));
        assert(s[0] == '-');
        assert forall|i: int| 0 <= i < s.len() implies is_digit(#[trigger] s[i]) || s[i]
            == '-' by {
            if i > 0 {
                assert(s[i] == decimal(m)[i - 1]);
            }
        }
    } else {
        lemma_decimal_value(n as nat);
        assert(is_digit(s[0]));
        assert(s.skip(0) =~= s);
    }
}

/// Reading the decimal text of an `i64` gives it back.
pub proof fn lemma_i64_of_decimal(n: i64)
    ensures
        i64_of(signed_decimal(n as int)) == Some(n),
        is_numeric_text(signed_decimal(n as int)),
        signed_decimal(n as int).len() > 0,
{
    lemma_integer_of_decimal(n as int, 0x7fff_ffff_ffff_ffff, 0x8000_0000_0000_0000);
}

/// Reading the decimal text of a `u8` gives it back.
pub proof fn lemma_u8_of_decimal(n: u8)
    ensures
        u8_of(signed_decimal(n as int)) == Some(n),
        is_numeric_text(signed_decimal(n as int)),
        signed_decimal(n as int).len() > 0,
{
    lemma_integer_of_decimal(n as int, 255, 0);
}

fn digit_str(d: u8) -> (s: &'static str)
    requires
        d < 10,
    ensures
        s@ == seq![digit_char(d as nat)],
{
    proof {
        reveal_strlit("0");
        reveal_strlit("1");
        reveal_strlit("2");
        reveal_strlit("3");
        reveal_strlit("4");
        reveal_strlit("5");
        reveal_strlit("6");
        reveal_strlit("7");
        reveal_strlit("8");
        reveal_strlit("9");
    }
    let s = if d == 0 {
        "0"
    } else if d == 1 {
        "1"
    } else if d == 2 {
        "2"
    } else if d == 3 {
        "3"
    } else if d == 4 {
        "4"
    } else if d == 5 {
        "5"
    } else if d == 6 {
        "6"
    } else if d == 7 {
        "7"
    } else if d == 8 {
        "8"
    } else {
        "9"
    };
    assert(s@ =~= seq![digit_char(d as nat)]);
    s
}

fn push_decimal(out: &mut String, n: u64)
    ensures
        final(out)@ == old(out)@ + decimal(n as nat),
    decreases n,
{
    if n >= 10 {
        push_decimal(out, n / 10);
    }
    out.append(digit_str((n % 10) as u8));
    proof {
        if n >= 10 {
            assert(final(out)@ =~= old(out)@ + (decimal((n / 10) as nat) + seq![
                digit_char((n % 10) as nat),
            ]));
        }
    }
}

/// The decimal text of `n`.
pub fn format_i64(n: i64) -> (s: String)
    ensures
        s@ == signed_decimal(n as int),
{
    let mut out = String::new();
    if n < 0 {
        proof {
            reveal_strlit("-");
        }
        out.append("-");
        let magnitude: u64 = if n == i64::MIN {
            0x8000_0000_0000_0000
        } else {
            (-n) as u64
        };
        push_decimal(&mut out, magnitude);
        assert(out@ =~= seq!['-'] + decimal((-n) as nat));
    } else {
        push_decimal(&mut out, n as u64);
        assert(out@ =~= decimal(n as nat));
    }
    out
}

/// The decimal text of `n`.
pub fn format_u8(n: u8) -> (s: String)
    ensures
        s@ == signed_decimal(n as int),
{
    let mut out = String::new();
    push_decimal(&mut out, n as u64);
    assert(out@ =~= decimal(n as nat));
    out
}

/// Reads a sign and digits. Gives whether the text is negative and the number
/// that its digits denote, each limit being the largest magnitude accepted
/// for its sign.
fn parse_integer(s: &str, signed: bool, pos_limit: u64, neg_limit: u64) -> (r: Option<(bool, u64)>)
    ensures
        match r {
            Some((negative, magnitude)) => {
                &&& negative == is_negative(s@, signed)
                &&& magnitude <= if negative {
                    neg_limit
                } else {
                    pos_limit
                }
                &&& integer_of(s@, signed, pos_limit as nat, neg_limit as nat) == Some(
                    if negative {
                        -(magnitude as int)
                    } else {
                        magnitude as int
                    },
                )
            },
            None => integer_of(s@, signed, pos_limit as nat, neg_limit as nat).is_none(),
        },
{
    let total = s.unicode_len();
    let mut negative = false;
    let mut limit = pos_limit;
    let mut acc: u64 = 0;
    let mut sign: usize = 0;
    let mut i: usize = 0;
    let ghost body = s@.skip(sign_len(s@, signed));
    let chars = s.chars();
    for c in it: chars
        invariant
            it.seq() == s@,
            total == s@.len(),
            i == it.index(),
            body == s@.skip(sign_len(s@, signed)),
            i == 0 ==> !negative && acc == 0 && sign == 0,
            i > 0 ==> negative == is_negative(s@, signed) && sign == sign_len(s@, signed),
            sign <= i,
            limit == if negative {
                neg_limit
            } else {
                pos_limit
            },
            i > 0 ==> all_digits(body.take(i - sign)),
            i > 0 ==> acc == digits_value(body.take(i - sign)),
            acc <= limit,
    {
        if i == 0 && (c == '+' || (signed && c == '-')) {
            if c == '-' {
                negative = true;
                limit = neg_limit;
            }
            sign = 1;
            proof {
                assert(body.take(0) =~= Seq::<char>::empty());
            }
        } else {
            let code = c as u32;
            if code < 48 || code > 57 {
                proof {
                    assert(body[i - sign] == c);
                }
                return None;
            }
            let d = (code - 48) as u64;
            proof {
                let grown = body.take(i + 1 - sign);
                assert(grown.drop_last() =~= body.take(i - sign));
                assert(grown.last() == c);
                assert(digits_value(grown) == acc * 10 + d);
                assert forall|j: int| 0 <= j < grown.len() implies is_digit(
                    #[trigger] grown[j],
                ) by {
                    if j < i - sign {
                        assert(grown[j] == body.take(i - sign)[j]);
                    }
                }
                if acc * 10 + d > limit {
                    lemma_digits_value_prefix(body, i + 1 - sign);
                }
            }
            if acc > (u64::MAX - d) / 10 {
                return None;
            }
            let next = acc * 10 + d;
            if next > limit {
                return None;
            }
            acc = next;
        }
        i = i + 1;
    }
    if i == sign {
        return None;
    }
    proof {
        assert(body.take(total - sign) =~= body);
    }
    Some((negative, acc))
}

/// Reads a decimal `i64`: an optional `+` or `-`, then digits.
pub fn parse_i64(s: &str) -> (r: Option<i64>)
    ensures
        r == i64_of(s@),
{
    match parse_integer(s, true, 0x7fff_ffff_ffff_ffff, 0x8000_0000_0000_0000) {
        Some((negative, magnitude)) => {
            if !negative {
                Some(magnitude as i64)
            } else if magnitude == 0x8000_0000_0000_0000 {
                Some(i64::MIN)
            } else {
                Some(-(magnitude as i64))
            }
        },
        None => None,
    }
}

/// Reads a decimal `u8`: an optional `+`, then digits.
pub fn parse_u8(s: &str) -> (r: Option<u8>)
    ensures
        r == u8_of(s@),
{
    match parse_integer(s, false, 255, 0) {
        Some((_, magnitude)) => Some(magnitude as u8),
        None => None,
    }
}

} // verus!
