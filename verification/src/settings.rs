//! Settings given as text (environment variables): unsigned integers in
//! decimal or, for the I2C address, `0x`-prefixed hexadecimal, with defaults
//! for unset values.

use vstd::prelude::*;
use vstd::string::StrSliceExecFns;

verus! {

/// Value of `c` as a digit in `radix` (at most 36), if it is one.
pub open spec fn digit_of(c: char, radix: nat) -> Option<nat> {
    let v: int = if '0' <= c && c <= '9' {
        c as int - '0' as int
    } else if 'a' <= c && c <= 'z' {
        c as int - 'a' as int + 10
    } else if 'A' <= c && c <= 'Z' {
        c as int - 'A' as int + 10
    } else {
        radix as int
    };
    if v < radix {
        Some(v as nat)
    } else {
        None
    }
}

/// Every character of `s` is a digit in `radix`.
pub open spec fn all_digits(s: Seq<char>, radix: nat) -> bool {
    forall|i: int| 0 <= i < s.len() ==> (#[trigger] digit_of(s[i], radix)) is Some
}

/// The number that the digit string `s` denotes in `radix`.
pub open spec fn digits_value(s: Seq<char>, radix: nat) -> nat
    decreases s.len(),
{
    if s.len() == 0 {
        0
    } else {
        digits_value(s.drop_last(), radix) * radix + digit_of(s.last(), radix)->0
    }
}

/// What `from_str_radix` gives for an unsigned type whose largest value is
/// `max`: an optional `+` followed by one or more digits, denoting at most `max`.
pub open spec fn parse_unsigned(s: Seq<char>, radix: nat, max: nat) -> Option<nat> {
    let body = if s.len() > 0 && s[0] == '+' {
        s.drop_first()
    } else {
        s
    };
    if body.len() == 0 || !all_digits(body, radix) || digits_value(body, radix) > max {
        None
    } else {
        Some(digits_value(body, radix))
    }
}

/// `s` starts with `0x` or `0X`.
pub open spec fn has_hex_prefix(s: Seq<char>) -> bool {
    s.len() >= 2 && s[0] == '0' && (s[1] == 'x' || s[1] == 'X')
}

/// An 8-bit setting: hexadecimal after a `0x`/`0X` prefix, decimal otherwise.
pub open spec fn u8_setting(s: Seq<char>) -> Option<nat> {
    if has_hex_prefix(s) {
        parse_unsigned(s.skip(2), 16, 255)
    } else {
        parse_unsigned(s, 10, 255)
    }
}

proof fn lemma_digits_value_grows(s: Seq<char>, radix: nat, k: int)
    requires
        radix >= 1,
        0 <= k <= s.len(),
        all_digits(s, radix),
    ensures
        digits_value(s.take(k), radix) <= digits_value(s, radix),
    decreases s.len() - k,
{
    if k < s.len() {
        lemma_digits_value_grows(s, radix, k + 1);
        let t = s.take(k + 1);
        assert(t.drop_last() =~= s.take(k));
        assert(digits_value(t, radix) == digits_value(s.take(k), radix) * radix + digit_of(
            t.last(),
            radix,
        )->0);
        assert(digits_value(s.take(k), radix) * radix >= digits_value(s.take(k), radix))
            by (nonlinear_arith)
            requires
                radix >= 1,
        ;
    } else {
        assert(s.take(k) =~= s);
    }
}

/// Value of `c` as a digit in `radix`.
fn digit_value(c: char, radix: u32) -> (d: Option<u32>)
    requires
        2 <= radix <= 36,
    ensures
        d matches Some(v) ==> digit_of(c, radix as nat) == Some(v as nat),
        d is None ==> digit_of(c, radix as nat) is None,
{
    let v: u32 = if '0' <= c && c <= '9' {
        (c as u32) - ('0' as u32)
    } else if 'a' <= c && c <= 'z' {
        (c as u32) - ('a' as u32) + 10
    } else if 'A' <= c && c <= 'Z' {
        (c as u32) - ('A' as u32) + 10
    } else {
        radix
    };
    if v < radix {
        Some(v)
    } else {
        None
    }
}

/// Parses `s` from character `start` on as `parse_unsigned` describes.
fn parse_unsigned_from(s: &str, start: usize, radix: u32, max: u64) -> (r: Option<u64>)
    requires
        2 <= radix <= 36,
        start <= s@.len(),
    ensures
        r matches Some(v) ==> parse_unsigned(s@.skip(start as int), radix as nat, max as nat)
            == Some(v as nat),
        r is None ==> parse_unsigned(s@.skip(start as int), radix as nat, max as nat) is None,
{
    let len = s.unicode_len();
    let ghost text = s@.skip(start as int);
    let mut first = start;
    if first < len && s.get_char(first) == '+' {
        first = first + 1;
    }
    let ghost body = s@.skip(first as int);
    assert(body =~= (if text.len() > 0 && text[0] == '+' {
        text.drop_first()
    } else {
        text
    }));
    if first == len {
        return None;
    }
    let mut value: u64 = 0;
    let mut i = first;
    while i < len
        invariant
            first <= i <= len,
            len == s@.len(),
            body == s@.skip(first as int),
            text == s@.skip(start as int),
            body == (if text.len() > 0 && text[0] == '+' {
                text.drop_first()
            } else {
                text
            }),
            body.len() > 0,
            2 <= radix <= 36,
            all_digits(body.take(i - first), radix as nat),
            value == digits_value(body.take(i - first), radix as nat),
            value <= max,
        decreases len - i,
    {
        let c = s.get_char(i);
        let ghost k = i - first;
        assert(body[k] == c);
        let d = match digit_value(c, radix) {
            Some(d) => d,
            None => {
                assert(!all_digits(body, radix as nat)) by {
                    assert(digit_of(body[k], radix as nat) is None);
                }
                return None;
            },
        };
        let ghost prefix = body.take(k + 1);
        assert(prefix.drop_last() =~= body.take(k));
        assert(prefix.last() == c);
        assert(all_digits(prefix, radix as nat)) by {
            assert forall|j: int| 0 <= j < prefix.len() implies (#[trigger] digit_of(
                prefix[j],
                radix as nat,
            )) is Some by {
                if j < k {
                    assert(prefix[j] == body.take(k)[j]);
                }
            }
        }
        let next = match value.checked_mul(radix as u64) {
            Some(m) => m.checked_add(d as u64),
            None => None,
        };
        match next {
            Some(n) if n <= max => {
                value = n;
            },
            _ => {
                proof {
                    assert(digits_value(prefix, radix as nat) > max) by (nonlinear_arith)
                        requires
                            digits_value(prefix, radix as nat) == value * radix + d,
                            next is None ==> value * radix + d > u64::MAX,
                            next matches Some(n) ==> n == value * radix + d && n > max,
                            max <= u64::MAX,
                    ;
                    if all_digits(body, radix as nat) {
                        lemma_digits_value_grows(body, radix as nat, k + 1);
                    }
                }
                return None;
            },
        }
        i = i + 1;
    }
    assert(body.take(i - first) =~= body);
    Some(value)
}

/// Which setting a problem concerns.
#[derive(Clone, Copy, Debug, PartialEq, Eq, Structural)]
pub enum Setting {
    I2cAddress,
    PollMs,
    MaxReads,
    MqttPort,
}

/// A setting whose text does not denote a value of its type.
#[derive(Clone, Copy, Debug, PartialEq, Eq, Structural)]
pub enum SettingError {
    /// After a `0x` prefix, not a hexadecimal `u8`.
    NotHexU8 { setting: Setting },
    /// Not a decimal `u8`.
    NotU8 { setting: Setting },
    /// Not a decimal `u32`.
    NotU32 { setting: Setting },
    /// Not a decimal `u64`.
    NotU64 { setting: Setting },
}

/// The text of an optional string.
pub open spec fn text_of(value: Option<&str>) -> Option<Seq<char>> {
    match value {
        Some(s) => Some(s@),
        None => None,
    }
}

/// What an 8-bit setting reads as: `default` when unset.
pub open spec fn u8_setting_result(setting: Setting, value: Option<Seq<char>>, default: u8) -> Result<
    u8,
    SettingError,
> {
    match value {
        None => Ok(default),
        Some(s) => match u8_setting(s) {
            Some(v) => Ok(v as u8),
            None => Err(
                if has_hex_prefix(s) {
                    SettingError::NotHexU8 { setting }
                } else {
                    SettingError::NotU8 { setting }
                },
            ),
        },
    }
}

/// What a decimal 64-bit setting reads as: `default` when unset.
pub open spec fn u64_setting_result(setting: Setting, value: Option<Seq<char>>, default: u64) -> Result<
    u64,
    SettingError,
> {
    match value {
        None => Ok(default),
        Some(s) => match parse_unsigned(s, 10, u64::MAX as nat) {
            Some(v) => Ok(v as u64),
            None => Err(SettingError::NotU64 { setting }),
        },
    }
}

/// What an optional decimal 32-bit setting reads as: `None` when unset.
pub open spec fn optional_u32_setting_result(setting: Setting, value: Option<Seq<char>>) -> Result<
    Option<u32>,
    SettingError,
> {
    match value {
        None => Ok(None),
        Some(s) => match parse_unsigned(s, 10, u32::MAX as nat) {
            Some(v) => Ok(Some(v as u32)),
            None => Err(SettingError::NotU32 { setting }),
        },
    }
}

/// Reads an 8-bit setting: `default` when unset, hexadecimal after a `0x` or
/// `0X` prefix, decimal otherwise.
pub fn parse_u8_setting(setting: Setting, value: Option<&str>, default: u8) -> (r: Result<
    u8,
    SettingError,
>)
    ensures
        r == u8_setting_result(setting, text_of(value), default),
{
    match value {
        None => Ok(default),
        Some(s) => {
            let len = s.unicode_len();
            if len >= 2 && s.get_char(0) == '0' && (s.get_char(1) == 'x' || s.get_char(1) == 'X') {
                match parse_unsigned_from(s, 2, 16, 255) {
                    Some(v) => Ok(v as u8),
                    None => Err(SettingError::NotHexU8 { setting }),
                }
            } else {
                assert(s@.skip(0) =~= s@);
                match parse_unsigned_from(s, 0, 10, 255) {
                    Some(v) => Ok(v as u8),
                    None => Err(SettingError::NotU8 { setting }),
                }
            }
        },
    }
}

/// Reads a decimal 64-bit setting, `default` when unset.
pub fn parse_u64_setting(setting: Setting, value: Option<&str>, default: u64) -> (r: Result<
    u64,
    SettingError,
>)
    ensures
        r == u64_setting_result(setting, text_of(value), default),
{
    match value {
        None => Ok(default),
        Some(s) => {
            assert(s@.skip(0) =~= s@);
            match parse_unsigned_from(s, 0, 10, u64::MAX) {
                Some(v) => Ok(v),
                None => Err(SettingError::NotU64 { setting }),
            }
        },
    }
}

/// Reads an optional decimal 32-bit setting: `None` when unset.
pub fn parse_optional_u32_setting(setting: Setting, value: Option<&str>) -> (r: Result<
    Option<u32>,
    SettingError,
>)
    ensures
        r == optional_u32_setting_result(setting, text_of(value)),
{
    match value {
        None => Ok(None),
        Some(s) => {
            assert(s@.skip(0) =~= s@);
            match parse_unsigned_from(s, 0, 10, u32::MAX as u64) {
                Some(v) => Ok(Some(v as u32)),
                None => Err(SettingError::NotU32 { setting }),
            }
        },
    }
}

/// The character of digit `d` (below 36): `0`-`9`, then `a`-`z`.
pub open spec fn digit_char(d: nat) -> char {
    if d < 10 {
        ('0' as int + d) as char
    } else {
        ('a' as int + d - 10) as char
    }
}

/// The digits of `n` in `radix`, most significant first, without leading zeros.
pub open spec fn format_unsigned(n: nat, radix: nat) -> Seq<char>
    decreases n,
{
    if radix < 2 || n < radix {
        seq![digit_char(n)]
    } else {
        proof {
            vstd::arithmetic::div_mod::lemma_div_decreases(n as int, radix as int);
        }
        format_unsigned(n / radix, radix).push(digit_char(n % radix))
    }
}

proof fn lemma_digit_char(d: nat, radix: nat)
    requires
        d < radix <= 36,
    ensures
        digit_of(digit_char(d), radix) == Some(d),
        digit_char(d) != '+',
        radix <= 10 ==> '0' <= digit_char(d) <= '9',
{
}

proof fn lemma_format_parses(n: nat, radix: nat)
    requires
        2 <= radix <= 36,
    ensures
        format_unsigned(n, radix).len() > 0,
        format_unsigned(n, radix)[0] != '+',
        all_digits(format_unsigned(n, radix), radix),
        digits_value(format_unsigned(n, radix), radix) == n,
        radix <= 10 ==> forall|i: int|
            0 <= i < format_unsigned(n, radix).len() ==> '0' <= #[trigger] format_unsigned(
                n,
                radix,
            )[i] <= '9',
    decreases n,
{
    let f = format_unsigned(n, radix);
    if n < radix {
        lemma_digit_char(n, radix);
        assert(f.drop_last() =~= Seq::<char>::empty());
        assert(digits_value(f.drop_last(), radix) == 0);
    } else {
        vstd::arithmetic::div_mod::lemma_div_decreases(n as int, radix as int);
        let q = n / radix;
        let r = n % radix;
        lemma_format_parses(q, radix);
        let g = format_unsigned(q, radix);
        assert(f == g.push(digit_char(r)));
        lemma_digit_char(r, radix);
        assert(f.drop_last() =~= g);
        assert(f[0] == g[0]);
        assert forall|i: int| 0 <= i < f.len() implies (#[trigger] digit_of(f[i], radix)) is Some by {
            if i < g.len() {
                assert(f[i] == g[i]);
            }
        }
        vstd::arithmetic::div_mod::lemma_fundamental_div_mod(n as int, radix as int);
        assert(digits_value(f, radix) == q * radix + r) by (nonlinear_arith)
            requires
                digits_value(f, radix) == digits_value(g, radix) * radix + r,
                digits_value(g, radix) == q,
        ;
        if radix <= 10 {
            assert forall|i: int| 0 <= i < f.len() implies '0' <= #[trigger] f[i] <= '9' by {
                if i < g.len() {
                    assert(f[i] == g[i]);
                }
            }
        }
    }
}

/// Parsing gives back what formatting wrote: every `u8` reads back from its
/// decimal digits and from `0x` followed by its hexadecimal digits, and every
/// value up to the maximum of its type reads back from its decimal digits.
pub proof fn lemma_setting_round_trip(n: u8, m: nat, max: nat)
    requires
        m <= max,
    ensures
        u8_setting(format_unsigned(n as nat, 10)) == Some(n as nat),
        u8_setting("0x"@ + format_unsigned(n as nat, 16)) == Some(n as nat),
        parse_unsigned(format_unsigned(m, 10), 10, max) == Some(m),
{
    lemma_format_parses(n as nat, 10);
    lemma_format_parses(n as nat, 16);
    lemma_format_parses(m, 10);
    let d = format_unsigned(n as nat, 10);
    if d.len() >= 2 {
        assert('0' <= d[1] <= '9');
    }
    reveal_strlit("0x");
    let h = "0x"@ + format_unsigned(n as nat, 16);
    assert(has_hex_prefix(h));
    assert(h.skip(2) =~= format_unsigned(n as nat, 16));
}

} // verus!
