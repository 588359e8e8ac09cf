use vstd::arithmetic::div_mod::{lemma_mod_breakdown, lemma_small_mod};
use vstd::prelude::*;

use crate::value::UUID;

verus! {

/// Why a text is not an identifier.
#[derive(Clone, Copy, Debug, PartialEq, Eq, Structural)]
pub enum ParseError {
    /// The text does not hold exactly 36 characters.
    InvalidLength,
    /// The text has 36 characters, but a hyphen is missing or misplaced, or a
    /// digit position holds something other than a hexadecimal digit.
    InvalidFormat,
}

/// Number of characters in the canonical text.
pub open spec fn text_len() -> nat {
    36
}

/// Sixteen to the `n`.
pub open spec fn pow16(n: nat) -> nat
    decreases n,
{
    if n == 0 {
        1
    } else {
        16 * pow16((n - 1) as nat)
    }
}

/// The last `n` hexadecimal digits of `x`, most significant first.
pub open spec fn hex_digits(x: nat, n: nat) -> Seq<u8>
    decreases n,
{
    if n == 0 {
        seq![]
    } else {
        hex_digits(x / 16, (n - 1) as nat).push((x % 16) as u8)
    }
}

/// The number that a sequence of hexadecimal digits spells, most significant
/// first.
pub open spec fn digits_value(ds: Seq<u8>) -> nat
    decreases ds.len(),
{
    if ds.len() == 0 {
        0
    } else {
        digits_value(ds.drop_last()) * 16 + ds.last() as nat
    }
}

/// The 32 hexadecimal digits of an identifier, most significant first.
pub open spec fn uuid_digits(u: UUID) -> Seq<u8> {
    hex_digits(u.v1 as nat, 16) + hex_digits(u.v2 as nat, 16)
}

/// Positions of the four hyphens in the canonical text (8-4-4-4-12 grouping).
pub open spec fn is_hyphen_pos(k: int) -> bool {
    k == 8 || k == 13 || k == 18 || k == 23
}

/// How many digit positions come before text position `k`; for a digit
/// position, the index of its digit.
pub open spec fn digit_index(k: int) -> int {
    k - (if k > 8 { 1int } else { 0 }) - (if k > 13 { 1int } else { 0 }) - (if k > 18 {
        1int
    } else {
        0
    }) - (if k > 23 { 1int } else { 0 })
}

/// The text position of digit `j`.
pub open spec fn char_pos(j: int) -> int {
    j + (if j >= 8 { 1int } else { 0 }) + (if j >= 12 { 1int } else { 0 }) + (if j >= 16 {
        1int
    } else {
        0
    }) + (if j >= 20 { 1int } else { 0 })
}

/// The lowercase hexadecimal digit for a value below 16.
pub open spec fn hex_char(d: u8) -> char {
    if d < 10 {
        (d + 48) as char
    } else {
        (d + 87) as char
    }
}

/// A hexadecimal digit, in either case.
pub open spec fn is_hex(c: char) -> bool {
    ('0' <= c && c <= '9') || ('a' <= c && c <= 'f') || ('A' <= c && c <= 'F')
}

/// A lowercase hexadecimal digit.
pub open spec fn is_lower_hex(c: char) -> bool {
    ('0' <= c && c <= '9') || ('a' <= c && c <= 'f')
}

/// The value of a hexadecimal digit.
pub open spec fn hex_val(c: char) -> u8 {
    if '0' <= c && c <= '9' {
        (c as u32 - 48) as u8
    } else if 'a' <= c && c <= 'f' {
        (c as u32 - 87) as u8
    } else {
        (c as u32 - 55) as u8
    }
}

/// The canonical text of an identifier: 32 lowercase hexadecimal digits,
/// most significant first, with hyphens after the 8th, 12th, 16th and 20th.
pub open spec fn format_text(u: UUID) -> Seq<char> {
    Seq::new(
        text_len(),
        |k: int|
            if is_hyphen_pos(k) {
                '-'
            } else {
                hex_char(uuid_digits(u)[digit_index(k)])
            },
    )
}

/// Hyphens where the canonical text has them and hexadecimal digits elsewhere.
pub open spec fn well_formed(s: Seq<char>) -> bool {
    forall|k: int|
        0 <= k < s.len() ==> if is_hyphen_pos(k) {
            #[trigger] s[k] == '-'
        } else {
            is_hex(s[k])
        }
}

/// The values of the 32 digits of a 36-character text.
pub open spec fn text_digits(s: Seq<char>) -> Seq<u8> {
    Seq::new(32, |j: int| hex_val(s[char_pos(j)]))
}

/// What parsing a text gives.
pub open spec fn parse_text(s: Seq<char>) -> Result<UUID, ParseError> {
    if s.len() != text_len() {
        Err(ParseError::InvalidLength)
    } else if !well_formed(s) {
        Err(ParseError::InvalidFormat)
    } else {
        Ok(
            UUID {
                v1: digits_value(text_digits(s).subrange(0, 16)) as u64,
                v2: digits_value(text_digits(s).subrange(16, 32)) as u64,
            },
        )
    }
}

proof fn lemma_pow16_16()
    ensures
        pow16(16) == 0x1_0000_0000_0000_0000,
{
    reveal_with_fuel(pow16, 17);
}

proof fn lemma_pow16_pos(n: nat)
    ensures
        pow16(n) > 0,
    decreases n,
{
    if n > 0 {
        lemma_pow16_pos((n - 1) as nat);
    }
}

proof fn lemma_pow16_mono(a: nat, b: nat)
    requires
        a <= b,
    ensures
        pow16(a) <= pow16(b),
    decreases b,
{
    if a < b {
        lemma_pow16_mono(a, (b - 1) as nat);
    }
}

/// The digits of `x` spell `x` modulo sixteen to the `n`.
proof fn lemma_hex_digits(x: nat, n: nat)
    ensures
        hex_digits(x, n).len() == n,
        forall|i: int| 0 <= i < n ==> #[trigger] hex_digits(x, n)[i] < 16,
        digits_value(hex_digits(x, n)) == x % pow16(n),
    decreases n,
{
    if n > 0 {
        let m = (n - 1) as nat;
        lemma_hex_digits(x / 16, m);
        lemma_pow16_pos(m);
        assert(hex_digits(x, n).drop_last() =~= hex_digits(x / 16, m));
        lemma_mod_breakdown(x as int, 16, pow16(m) as int);
    }
}

/// The digits of a word spell the word.
proof fn lemma_word_digits(x: u64)
    ensures
        hex_digits(x as nat, 16).len() == 16,
        forall|i: int| 0 <= i < 16 ==> #[trigger] hex_digits(x as nat, 16)[i] < 16,
        digits_value(hex_digits(x as nat, 16)) == x,
{
    lemma_hex_digits(x as nat, 16);
    lemma_pow16_16();
    lemma_small_mod(x as nat, pow16(16));
}

/// Digits below 16 spell a number below sixteen to their count.
proof fn lemma_digits_bound(ds: Seq<u8>)
    requires
        forall|i: int| 0 <= i < ds.len() ==> #[trigger] ds[i] < 16,
    ensures
        digits_value(ds) < pow16(ds.len()),
    decreases ds.len(),
{
    if ds.len() > 0 {
        let rest = ds.drop_last();
        lemma_digits_bound(rest);
        let a = digits_value(rest);
        let p = pow16(rest.len());
        let l = ds.last() as nat;
        assert(a * 16 + l < 16 * p) by (nonlinear_arith)
            requires
                a < p,
                l < 16,
        ;
    }
}

proof fn lemma_hex_char(d: u8)
    requires
        d < 16,
    ensures
        is_hex(hex_char(d)),
        is_lower_hex(hex_char(d)),
        hex_char(d) != '-',
        hex_val(hex_char(d)) == d,
{
}

/// The canonical text is 36 characters long, with hyphens at positions 8, 13,
/// 18 and 23 and a lowercase hexadecimal digit everywhere else.
pub proof fn lemma_format_shape(u: UUID)
    ensures
        format_text(u).len() == 36,
        format_text(u)[8] == '-',
        format_text(u)[13] == '-',
        format_text(u)[18] == '-',
        format_text(u)[23] == '-',
        forall|k: int|
            0 <= k < 36 && !is_hyphen_pos(k) ==> is_lower_hex(#[trigger] format_text(u)[k]),
{
    lemma_word_digits(u.v1);
    lemma_word_digits(u.v2);
    assert forall|k: int| 0 <= k < 36 && !is_hyphen_pos(k) implies is_lower_hex(
        #[trigger] format_text(u)[k],
    ) by {
        lemma_hex_char(uuid_digits(u)[digit_index(k)]);
    }
}

/// Parsing the canonical text of any identifier gives that identifier back.
pub proof fn lemma_round_trip(u: UUID)
    ensures
        parse_text(format_text(u)) == Ok::<UUID, ParseError>(u),
{
    let s = format_text(u);
    let ds = uuid_digits(u);
    lemma_word_digits(u.v1);
    lemma_word_digits(u.v2);
    assert forall|k: int| 0 <= k < 36 && !is_hyphen_pos(k) implies is_hex(#[trigger] s[k]) && hex_val(s[k]) == ds[digit_index(k)] by {
        lemma_hex_char(ds[digit_index(k)]);
    }
    assert(well_formed(s));
    assert(text_digits(s) =~= ds);
    assert(ds.subrange(0, 16) =~= hex_digits(u.v1 as nat, 16));
    assert(ds.subrange(16, 32) =~= hex_digits(u.v2 as nat, 16));
}

proof fn lemma_digits_concat(a: Seq<u8>, b: Seq<u8>)
    ensures
        digits_value(a + b) == digits_value(a) * pow16(b.len()) + digits_value(b),
    decreases b.len(),
{
    if b.len() == 0 {
        assert(a + b =~= a);
        assert(pow16(0) == 1);
        assert(digits_value(b) == 0);
    } else {
        let rest = b.drop_last();
        lemma_digits_concat(a, rest);
        assert((a + b).drop_last() =~= a + rest);
        let x = digits_value(a);
        let p = pow16(rest.len());
        let y = digits_value(rest);
        let l = b.last() as nat;
        assert((a + b).last() == b.last());
        assert(digits_value(a + b) == digits_value(a + rest) * 16 + l);
        assert(digits_value(b) == y * 16 + l);
        assert(pow16(b.len()) == 16 * p);
        assert((x * p + y) * 16 + l == x * (16 * p) + (y * 16 + l)) by (nonlinear_arith);
    }
}

/// The 32 digits of the canonical text spell the identifier's 128-bit number
/// in hexadecimal, most significant first; so the digits of a smaller
/// identifier spell a smaller number.
pub proof fn lemma_text_spells_value(u: UUID)
    ensures
        digits_value(text_digits(format_text(u))) == u.value(),
{
    let s = format_text(u);
    let ds = uuid_digits(u);
    lemma_word_digits(u.v1);
    lemma_word_digits(u.v2);
    assert forall|k: int| 0 <= k < 36 && !is_hyphen_pos(k) implies hex_val(#[trigger] s[k])
        == ds[digit_index(k)] by {
        lemma_hex_char(ds[digit_index(k)]);
    }
    assert(text_digits(s) =~= ds);
    lemma_digits_concat(hex_digits(u.v1 as nat, 16), hex_digits(u.v2 as nat, 16));
    lemma_pow16_16();
}

/// Appends the last `n` hexadecimal digits of `x`.
fn push_digits(x: u64, n: usize, out: &mut Vec<u8>)
    ensures
        final(out)@ == old(out)@ + hex_digits(x as nat, n as nat),
    decreases n,
{
    if n == 0 {
        assert(old(out)@ + hex_digits(x as nat, 0) =~= old(out)@);
        return;
    }
    push_digits(x / 16, n - 1, out);
    out.push((x % 16) as u8);
    assert(final(out)@ =~= old(out)@ + hex_digits(x as nat, n as nat));
}

impl UUID {
    /// The canonical text: 36 characters, lowercase hexadecimal digits grouped
    /// 8-4-4-4-12 and joined by hyphens.
    pub fn to_str(&self) -> (r: String)
        ensures
            r@ == format_text(*self),
    {
        let mut ds: Vec<u8> = Vec::new();
        push_digits(self.v1, 16, &mut ds);
        push_digits(self.v2, 16, &mut ds);
        proof {
            lemma_word_digits(self.v1);
            lemma_word_digits(self.v2);
        }
        assert(ds@ =~= uuid_digits(*self));
        let digits = "0123456789abcdef";
        proof {
            reveal_strlit("0123456789abcdef");
        }
        let mut out = String::new();
        let mut k: usize = 0;
        let mut j: usize = 0;
        while k < 36
            invariant
                k <= 36,
                j == digit_index(k as int),
                ds@ == uuid_digits(*self),
                ds@.len() == 32,
                forall|i: int| 0 <= i < 32 ==> #[trigger] ds@[i] < 16,
                digits@ == seq!['0', '1', '2', '3', '4', '5', '6', '7', '8', '9', 'a', 'b', 'c', 'd', 'e', 'f'],
                out@ =~= format_text(*self).subrange(0, k as int),
            decreases 36 - k,
        {
            if k == 8 || k == 13 || k == 18 || k == 23 {
                out.append("-");
                proof {
                    reveal_strlit("-");
                }
            } else {
                let d = ds[j];
                assert(digits@[d as int] == hex_char(d));
                out.append(digits.substring_ascii(d as usize, d as usize + 1));
                j = j + 1;
            }
            k = k + 1;
        }
        out
    }
}

/// Reads the canonical text of an identifier. Hexadecimal digits may be in
/// either case.
pub fn parse(s: &str) -> (r: Result<UUID, ParseError>)
    ensures
        r == parse_text(s@),
{
    let n = s.unicode_len();
    if n != 36 {
        return Err(ParseError::InvalidLength);
    }
    if !s.is_ascii() {
        assert(!well_formed(s@));
        return Err(ParseError::InvalidFormat);
    }
    let b = s.as_bytes();
    proof {
        broadcast use vstd::string::is_ascii_spec_bytes;
    }
    assert(b@ =~= Seq::new(36, |i: int| s@[i] as u8));
    let ghost td = text_digits(s@);
    let mut v1: u64 = 0;
    let mut v2: u64 = 0;
    let mut k: usize = 0;
    let mut j: usize = 0;
    while k < 36
        invariant
            k <= 36,
            j == digit_index(k as int),
            s@.len() == 36,
            s.is_ascii(),
            b@ == Seq::new(36, |i: int| s@[i] as u8),
            td == text_digits(s@),
            forall|i: int| 0 <= i < k ==> if is_hyphen_pos(i) {
                #[trigger] s@[i] == '-'
            } else {
                is_hex(s@[i])
            },
            j <= 16 ==> v1 == digits_value(td.subrange(0, j as int)) && v2 == 0,
            j > 16 ==> v1 == digits_value(td.subrange(0, 16)) && v2 == digits_value(
                td.subrange(16, j as int),
            ),
        decreases 36 - k,
    {
        let c = b[k];
        assert(c == s@[k as int] as u8);
        assert(s@[k as int] <= '\x7f');
        if k == 8 || k == 13 || k == 18 || k == 23 {
            if c != 45 {
                return Err(ParseError::InvalidFormat);
            }
        } else {
            let d: u8;
            if 48 <= c && c <= 57 {
                d = c - 48;
            } else if 97 <= c && c <= 102 {
                d = c - 87;
            } else if 65 <= c && c <= 70 {
                d = c - 55;
            } else {
                return Err(ParseError::InvalidFormat);
            }
            assert(char_pos(j as int) == k);
            assert(td[j as int] == d);
            proof {
                assert forall|i: int| 0 <= i <= j implies #[trigger] td[i] < 16 by {
                    let ci = s@[char_pos(i)];
                    assert(0 <= char_pos(i) <= k);
                    assert(is_hex(ci));
                }
            }
            if j < 16 {
                let ghost pre = td.subrange(0, j as int);
                assert(td.subrange(0, j + 1).drop_last() =~= pre);
                proof {
                    lemma_digits_bound(pre);
                    lemma_pow16_mono(j as nat, 15);
                    lemma_pow16_16();
                }
                v1 = v1 * 16 + d as u64;
            } else {
                let ghost pre = td.subrange(16, j as int);
                assert(td.subrange(16, j + 1).drop_last() =~= pre);
                proof {
                    lemma_digits_bound(pre);
                    lemma_pow16_mono((j - 16) as nat, 15);
                    lemma_pow16_16();
                }
                v2 = v2 * 16 + d as u64;
            }
            j = j + 1;
        }
        k = k + 1;
    }
    Ok(UUID { v1, v2 })
}

impl core::str::FromStr for UUID {
    type Err = ParseError;

    fn from_str(s: &str) -> Result<UUID, ParseError> {
        parse(s)
    }
}

/// Reads the canonical text of an identifier; `None` where `parse` fails.
pub fn from_str(s: &str) -> (r: Option<UUID>)
    ensures
        r == match parse_text(s@) {
            Ok(u) => Some(u),
            Err(_) => None::<UUID>,
        },
{
    match parse(s) {
        Ok(u) => Some(u),
        Err(_) => None,
    }
}

} // verus!
