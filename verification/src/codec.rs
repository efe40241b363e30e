//! Parsing and display of account addresses and decimal token amounts.

use vstd::prelude::*;

verus! {

/// Base-ten exponent of the native coin's smallest unit.
pub const NATIVE_DECIMALS: u32 = 18;

/// Why an address or amount string was rejected.
#[derive(Clone, Copy, Debug, PartialEq, Eq, Structural)]
pub enum ParseError {
    /// The hex part of an address is not exactly forty digits long.
    BadLength,
    /// A character of an address is not a hexadecimal digit.
    BadHexDigit,
    /// An amount is not of the form `digits` or `digits.digits`.
    NotNumeric,
    /// An amount has more fractional digits than the unit allows.
    TooManyFractionalDigits,
    /// An amount does not fit in 128-bit base units.
    AmountTooLarge,
}

/// A twenty-byte account address.
#[derive(Debug)]
pub struct Address {
    bytes: Vec<u8>,
}

impl View for Address {
    type V = Seq<u8>;

    closed spec fn view(&self) -> Seq<u8> {
        self.bytes@
    }
}

impl Address {
    /// A well-formed address holds exactly twenty bytes.
    pub open spec fn wf(&self) -> bool {
        self@.len() == 20
    }

    /// Wraps raw bytes; `None` unless exactly twenty bytes are given.
    pub fn from_bytes(bytes: Vec<u8>) -> (r: Option<Address>)
        ensures
            match r {
                Some(a) => bytes@.len() == 20 && a@ == bytes@ && a.wf(),
                None => bytes@.len() != 20,
            },
    {
        if bytes.len() == 20 {
            Some(Address { bytes })
        } else {
            None
        }
    }

    /// The raw bytes of the address.
    pub fn as_bytes(&self) -> (r: &Vec<u8>)
        ensures
            r@ == self@,
    {
        &self.bytes
    }

    /// An owned copy of the address.
    pub fn dup(&self) -> (r: Address)
        ensures
            r@ == self@,
    {
        let mut v: Vec<u8> = Vec::new();
        let mut i: usize = 0;
        while i < self.bytes.len()
            invariant
                i <= self@.len(),
                v@ == self@.take(i as int),
            decreases self@.len() - i,
        {
            v.push(self.bytes[i]);
            proof {
                assert(v@ =~= self@.take(i + 1));
            }
            i += 1;
        }
        proof {
            assert(v@ =~= self@);
        }
        Address { bytes: v }
    }
}

/// Whether `c` is a decimal digit.
pub open spec fn is_dec_digit_char(c: char) -> bool {
    '0' as u32 <= c as u32 <= '9' as u32
}

/// Whether `c` is a hexadecimal digit of either case.
pub open spec fn is_hex_digit_char(c: char) -> bool {
    is_dec_digit_char(c) || ('a' as u32 <= c as u32 <= 'f' as u32) || ('A' as u32 <= c as u32
        <= 'F' as u32)
}

/// The numeric value of a decimal digit.
pub open spec fn dec_digit_val(c: char) -> int {
    c as u32 - '0' as u32
}

/// The numeric value of a hexadecimal digit of either case.
pub open spec fn hex_digit_val(c: char) -> int {
    if is_dec_digit_char(c) {
        c as u32 - '0' as u32
    } else if 'a' as u32 <= c as u32 {
        c as u32 - 'a' as u32 + 10
    } else {
        c as u32 - 'A' as u32 + 10
    }
}

/// The lower-case hexadecimal digit for a value in `0..16`.
pub open spec fn hex_digit_char(d: int) -> char {
    if d == 0 {
        '0'
    } else if d == 1 {
        '1'
    } else if d == 2 {
        '2'
    } else if d == 3 {
        '3'
    } else if d == 4 {
        '4'
    } else if d == 5 {
        '5'
    } else if d == 6 {
        '6'
    } else if d == 7 {
        '7'
    } else if d == 8 {
        '8'
    } else if d == 9 {
        '9'
    } else if d == 10 {
        'a'
    } else if d == 11 {
        'b'
    } else if d == 12 {
        'c'
    } else if d == 13 {
        'd'
    } else if d == 14 {
        'e'
    } else {
        'f'
    }
}

/// Lower-case hex rendering of a byte sequence, high nibble first.
pub open spec fn hex_of_bytes(bs: Seq<u8>) -> Seq<char>
    decreases bs.len(),
{
    if bs.len() == 0 {
        Seq::empty()
    } else {
        hex_of_bytes(bs.drop_last()) + seq![
            hex_digit_char(bs.last() as int / 16),
            hex_digit_char(bs.last() as int % 16),
        ]
    }
}

/// The full rendered form of an address: `0x` followed by its bytes in hex.
pub open spec fn rendered_address(bs: Seq<u8>) -> Seq<char> {
    seq!['0', 'x'] + hex_of_bytes(bs)
}

/// The display-shortening rule: a string of more than twelve characters keeps
/// its first ten and last four around an ellipsis; shorter ones stay whole.
pub open spec fn short_of(s: Seq<char>) -> Seq<char> {
    if s.len() <= 12 {
        s
    } else {
        s.take(10) + seq!['…'] + s.skip(s.len() - 4)
    }
}

/// The one-character string for a digit value in `0..16`.
pub(crate) fn digit_str(d: u8) -> (r: &'static str)
    requires
        d < 16,
    ensures
        r@ == seq![hex_digit_char(d as int)],
{
    if d == 0 {
        proof {
            reveal_strlit("0");
            assert("0"@ =~= seq![hex_digit_char(0)]);
        }
        "0"
    } else if d == 1 {
        proof {
            reveal_strlit("1");
            assert("1"@ =~= seq![hex_digit_char(1)]);
        }
        "1"
    } else if d == 2 {
        proof {
            reveal_strlit("2");
            assert("2"@ =~= seq![hex_digit_char(2)]);
        }
        "2"
    } else if d == 3 {
        proof {
            reveal_strlit("3");
            assert("3"@ =~= seq![hex_digit_char(3)]);
        }
        "3"
    } else if d == 4 {
        proof {
            reveal_strlit("4");
            assert("4"@ =~= seq![hex_digit_char(4)]);
        }
        "4"
    } else if d == 5 {
        proof {
            reveal_strlit("5");
            assert("5"@ =~= seq![hex_digit_char(5)]);
        }
        "5"
    } else if d == 6 {
        proof {
            reveal_strlit("6");
            assert("6"@ =~= seq![hex_digit_char(6)]);
        }
        "6"
    } else if d == 7 {
        proof {
            reveal_strlit("7");
            assert("7"@ =~= seq![hex_digit_char(7)]);
        }
        "7"
    } else if d == 8 {
        proof {
            reveal_strlit("8");
            assert("8"@ =~= seq![hex_digit_char(8)]);
        }
        "8"
    } else if d == 9 {
        proof {
            reveal_strlit("9");
            assert("9"@ =~= seq![hex_digit_char(9)]);
        }
        "9"
    } else if d == 10 {
        proof {
            reveal_strlit("a");
            assert("a"@ =~= seq![hex_digit_char(10)]);
        }
        "a"
    } else if d == 11 {
        proof {
            reveal_strlit("b");
            assert("b"@ =~= seq![hex_digit_char(11)]);
        }
        "b"
    } else if d == 12 {
        proof {
            reveal_strlit("c");
            assert("c"@ =~= seq![hex_digit_char(12)]);
        }
        "c"
    } else if d == 13 {
        proof {
            reveal_strlit("d");
            assert("d"@ =~= seq![hex_digit_char(13)]);
        }
        "d"
    } else if d == 14 {
        proof {
            reveal_strlit("e");
            assert("e"@ =~= seq![hex_digit_char(14)]);
        }
        "e"
    } else {
        proof {
            reveal_strlit("f");
            assert("f"@ =~= seq![hex_digit_char(15)]);
        }
        "f"
    }
}

/// The lower-case hex rendering of raw bytes, two digits per byte.
pub fn hex_string(bytes: &Vec<u8>) -> (r: String)
    ensures
        r@ == hex_of_bytes(bytes@),
{
    let mut s = String::new();
    proof {
        assert(bytes@.take(0) =~= Seq::<u8>::empty());
    }
    let mut i: usize = 0;
    while i < bytes.len()
        invariant
            i <= bytes@.len(),
            s@ == hex_of_bytes(bytes@.take(i as int)),
        decreases bytes@.len() - i,
    {
        let b = bytes[i];
        s.append(digit_str(b / 16));
        s.append(digit_str(b % 16));
        proof {
            assert(bytes@.take(i + 1).drop_last() =~= bytes@.take(i as int));
            assert(bytes@.take(i + 1).last() == bytes@[i as int]);
            assert(s@ =~= hex_of_bytes(bytes@.take(i + 1)));
        }
        i += 1;
    }
    proof {
        assert(bytes@.take(bytes@.len() as int) =~= bytes@);
    }
    s
}

/// The full `0x`-prefixed lower-case hex rendering of an address.
pub fn format_address(addr: &Address) -> (r: String)
    ensures
        r@ == rendered_address(addr@),
{
    let mut s = String::from_str("0x");
    proof {
        reveal_strlit("0x");
        assert(s@ =~= seq!['0', 'x']);
    }
    let hex = hex_string(&addr.bytes);
    s.append(hex.as_str());
    s
}

/// The shortened display form of an address per `short_of` over its full
/// rendering.
pub fn format_address_short(addr: &Address) -> (r: String)
    ensures
        r@ == short_of(rendered_address(addr@)),
{
    let full = format_address(addr);
    let n = full.as_str().unicode_len();
    if n <= 12 {
        full
    } else {
        let head = full.as_str().substring_char(0, 10);
        let tail = full.as_str().substring_char(n - 4, n);
        let mut s = String::from_str(head);
        s.append("…");
        s.append(tail);
        proof {
            reveal_strlit("…");
            assert("…"@ =~= seq!['…']);
            assert(s@ =~= short_of(rendered_address(addr@)));
        }
        s
    }
}

/// The hex rendering of a byte sequence is two characters per byte.
pub proof fn lemma_hex_of_bytes_len(bs: Seq<u8>)
    ensures
        hex_of_bytes(bs).len() == 2 * bs.len(),
    decreases bs.len(),
{
    if bs.len() > 0 {
        lemma_hex_of_bytes_len(bs.drop_last());
    }
}

/// For every twenty-byte address the shortened rendering is the
/// fifteen-character form `0x`, the first eight hex digits, an ellipsis, and
/// the last four hex digits of the full rendering.
pub proof fn lemma_short_rendering_form(bs: Seq<u8>)
    requires
        bs.len() == 20,
    ensures
        rendered_address(bs).len() == 42,
        short_of(rendered_address(bs)).len() == 15,
        short_of(rendered_address(bs)) == seq!['0', 'x'] + hex_of_bytes(bs).take(8) + seq!['…']
            + hex_of_bytes(bs).skip(36),
{
    lemma_hex_of_bytes_len(bs);
    assert(rendered_address(bs).take(10) =~= seq!['0', 'x'] + hex_of_bytes(bs).take(8));
    assert(rendered_address(bs).skip(38) =~= hex_of_bytes(bs).skip(36));
    assert(short_of(rendered_address(bs)) =~= seq!['0', 'x'] + hex_of_bytes(bs).take(8)
        + seq!['…'] + hex_of_bytes(bs).skip(36));
}

/// The hex digits of an address text, after an optional `0x` prefix.
pub open spec fn strip_hex_prefix(s: Seq<char>) -> Seq<char> {
    if s.len() >= 2 && s[0] == '0' && s[1] == 'x' {
        s.skip(2)
    } else {
        s
    }
}

/// Whether every character of `s` is a hexadecimal digit.
pub open spec fn all_hex_digits(s: Seq<char>) -> bool {
    forall|i: int| 0 <= i < s.len() ==> is_hex_digit_char(s[i])
}

/// The byte encoded by the hex digits at positions `2j` and `2j + 1`.
pub open spec fn hex_byte_at(s: Seq<char>, j: int) -> u8 {
    (hex_digit_val(s[2 * j]) * 16 + hex_digit_val(s[2 * j + 1])) as u8
}

/// The twenty bytes encoded by a forty-digit hex string.
pub open spec fn address_from_hex(s: Seq<char>) -> Seq<u8> {
    Seq::new(20, |j: int| hex_byte_at(s, j))
}

/// Whether `s` is a valid address text: forty hex digits after an optional
/// `0x` prefix.
pub open spec fn valid_address_text(s: Seq<char>) -> bool {
    strip_hex_prefix(s).len() == 40 && all_hex_digits(strip_hex_prefix(s))
}

/// Whether `c` is a hexadecimal digit of either case.
fn is_hex_digit(c: char) -> (r: bool)
    ensures
        r == is_hex_digit_char(c),
{
    let u = c as u32;
    (48 <= u && u <= 57) || (97 <= u && u <= 102) || (65 <= u && u <= 70)
}

/// The numeric value of a hexadecimal digit character.
fn hex_digit_value(c: char) -> (v: u8)
    requires
        is_hex_digit_char(c),
    ensures
        v as int == hex_digit_val(c),
        v < 16,
{
    let u = c as u32;
    if 48 <= u && u <= 57 {
        (u - 48) as u8
    } else if 97 <= u {
        (u - 87) as u8
    } else {
        (u - 55) as u8
    }
}

/// Parses a checksummed or lower-case hex address, with or without a `0x`
/// prefix, into its twenty bytes; rejects malformed input.
pub fn parse_address(text: &str) -> (r: Result<Address, ParseError>)
    ensures
        match r {
            Ok(a) => valid_address_text(text@) && a.wf() && a@ == address_from_hex(
                strip_hex_prefix(text@),
            ),
            Err(ParseError::BadLength) => strip_hex_prefix(text@).len() != 40,
            Err(ParseError::BadHexDigit) => strip_hex_prefix(text@).len() == 40
                && !all_hex_digits(strip_hex_prefix(text@)),
            Err(_) => false,
        },
{
    let n = text.unicode_len();
    let hex: &str = if n >= 2 && text.get_char(0) == '0' && text.get_char(1) == 'x' {
        text.substring_char(2, n)
    } else {
        text
    };
    proof {
        assert(hex@ =~= strip_hex_prefix(text@));
    }
    let m = hex.unicode_len();
    if m != 40 {
        return Err(ParseError::BadLength);
    }
    let mut bytes: Vec<u8> = Vec::new();
    let mut j: usize = 0;
    while j < 20
        invariant
            hex@ == strip_hex_prefix(text@),
            hex@.len() == 40,
            j <= 20,
            bytes@.len() == j,
            forall|k: int| 0 <= k < j ==> #[trigger] is_hex_digit_char(hex@[2 * k]),
            forall|k: int| 0 <= k < j ==> #[trigger] is_hex_digit_char(hex@[2 * k + 1]),
            forall|k: int| 0 <= k < j ==> #[trigger] bytes@[k] == hex_byte_at(hex@, k),
        decreases 20 - j,
    {
        let c1 = hex.get_char(2 * j);
        let c2 = hex.get_char(2 * j + 1);
        if !is_hex_digit(c1) {
            proof {
                assert(!is_hex_digit_char(hex@[2 * (j as int)]));
            }
            return Err(ParseError::BadHexDigit);
        }
        if !is_hex_digit(c2) {
            proof {
                assert(!is_hex_digit_char(hex@[2 * (j as int) + 1]));
            }
            return Err(ParseError::BadHexDigit);
        }
        let v1 = hex_digit_value(c1);
        let v2 = hex_digit_value(c2);
        let b: u8 = v1 * 16 + v2;
        bytes.push(b);
        proof {
            assert(hex@[2 * (j as int)] == c1);
            assert(hex@[2 * (j as int) + 1] == c2);
            assert(b == hex_byte_at(hex@, j as int));
            assert(bytes@[j as int] == hex_byte_at(hex@, j as int));
        }
        j += 1;
    }
    proof {
        assert forall|i: int| 0 <= i < 40 implies is_hex_digit_char(hex@[i]) by {
            let k = i / 2;
            assert(0 <= k < 20);
            if i % 2 == 0 {
                assert(i == 2 * k);
                assert(is_hex_digit_char(hex@[2 * k]));
            } else {
                assert(i == 2 * k + 1);
                assert(is_hex_digit_char(hex@[2 * k + 1]));
            }
        }
        assert(bytes@ =~= address_from_hex(strip_hex_prefix(text@)));
    }
    Ok(Address { bytes })
}

/// Whether every character of `s` is a decimal digit.
pub open spec fn all_dec_digits(s: Seq<char>) -> bool {
    forall|i: int| 0 <= i < s.len() ==> is_dec_digit_char(s[i])
}

/// The integer value of a run of decimal digits (an empty run means zero).
pub open spec fn dec_value(s: Seq<char>) -> int
    decreases s.len(),
{
    if s.len() == 0 {
        0
    } else {
        dec_value(s.drop_last()) * 10 + dec_digit_val(s.last())
    }
}

/// Ten to the power `e`.
pub open spec fn pow10(e: nat) -> int
    decreases e,
{
    if e == 0 {
        1
    } else {
        10 * pow10((e - 1) as nat)
    }
}

/// The position of the first `.` in `s`, or `-1` if there is none.
pub open spec fn first_dot(s: Seq<char>) -> int
    decreases s.len(),
{
    if s.len() == 0 {
        -1
    } else if s[0] == '.' {
        0
    } else if first_dot(s.drop_first()) < 0 {
        -1
    } else {
        first_dot(s.drop_first()) + 1
    }
}

/// The shape `digits` or `digits.digits`, both runs non-empty.
pub open spec fn amount_shape_ok(s: Seq<char>) -> bool {
    if first_dot(s) < 0 {
        s.len() > 0 && all_dec_digits(s)
    } else {
        let d = first_dot(s);
        1 <= d && d + 1 < s.len() && all_dec_digits(s.take(d)) && all_dec_digits(s.skip(d + 1))
    }
}

/// The number of fractional digits of an amount (zero without a dot).
pub open spec fn fractional_len(s: Seq<char>) -> int {
    if first_dot(s) < 0 {
        0
    } else {
        s.len() - first_dot(s) - 1
    }
}

/// Whether the fractional digits fit the unit's exponent.
pub open spec fn amount_within_unit(s: Seq<char>, decimals: nat) -> bool {
    fractional_len(s) <= decimals
}

/// The exact integer base-unit value of a decimal amount string.
pub open spec fn amount_value(s: Seq<char>, decimals: nat) -> int {
    if first_dot(s) < 0 {
        dec_value(s) * pow10(decimals)
    } else {
        let d = first_dot(s);
        dec_value(s.take(d)) * pow10(decimals) + dec_value(s.skip(d + 1)) * pow10(
            (decimals - fractional_len(s)) as nat,
        )
    }
}

/// A run of decimal digits has a non-negative value.
proof fn lemma_dec_value_nonneg(s: Seq<char>)
    requires
        all_dec_digits(s),
    ensures
        dec_value(s) >= 0,
    decreases s.len(),
{
    if s.len() > 0 {
        assert(all_dec_digits(s.drop_last())) by {
            assert(forall|i: int|
                0 <= i < s.len() - 1 ==> s.drop_last()[i] == #[trigger] s[i]);
        }
        lemma_dec_value_nonneg(s.drop_last());
        assert(is_dec_digit_char(s.last()));
    }
}

/// Extending a digit run by one digit multiplies its value by ten and adds it.
proof fn lemma_dec_value_take_step(s: Seq<char>, i: int)
    requires
        0 <= i < s.len(),
    ensures
        dec_value(s.take(i + 1)) == dec_value(s.take(i)) * 10 + dec_digit_val(s[i]),
{
    assert(s.take(i + 1).drop_last() =~= s.take(i));
    assert(s.take(i + 1).last() == s[i]);
}

/// A prefix of a digit run never exceeds the whole run's value.
proof fn lemma_dec_value_prefix_le(s: Seq<char>, i: int)
    requires
        all_dec_digits(s),
        0 <= i <= s.len(),
    ensures
        dec_value(s.take(i)) <= dec_value(s),
    decreases s.len() - i,
{
    if i == s.len() {
        assert(s.take(i) =~= s);
    } else {
        assert(all_dec_digits(s.take(i))) by {
            assert(forall|j: int| 0 <= j < i ==> s.take(i)[j] == #[trigger] s[j]);
        }
        lemma_dec_value_nonneg(s.take(i));
        lemma_dec_value_take_step(s, i);
        assert(is_dec_digit_char(s[i]));
        lemma_dec_value_prefix_le(s, i + 1);
    }
}

/// Ten to any power is positive.
proof fn lemma_pow10_pos(e: nat)
    ensures
        pow10(e) >= 1,
    decreases e,
{
    if e > 0 {
        lemma_pow10_pos((e - 1) as nat);
    }
}

/// Ten to a power never shrinks as the exponent grows.
proof fn lemma_pow10_le(e1: nat, e2: nat)
    requires
        e1 <= e2,
    ensures
        pow10(e1) <= pow10(e2),
    decreases e2,
{
    if e1 < e2 {
        lemma_pow10_le(e1, (e2 - 1) as nat);
        lemma_pow10_pos((e2 - 1) as nat);
    }
}

/// A dot at `i` with none before it pins `first_dot` down to `i`.
proof fn lemma_first_dot_at(s: Seq<char>, i: int)
    requires
        0 <= i < s.len(),
        s[i] == '.',
        forall|j: int| 0 <= j < i ==> s[j] != '.',
    ensures
        first_dot(s) == i,
    decreases i,
{
    if i > 0 {
        let t = s.drop_first();
        assert(t[i - 1] == '.');
        assert forall|j: int| 0 <= j < i - 1 implies t[j] != '.' by {
            assert(s[j + 1] != '.');
        }
        lemma_first_dot_at(t, i - 1);
    }
}

/// A string without a dot has a negative `first_dot`.
proof fn lemma_first_dot_none(s: Seq<char>)
    requires
        forall|j: int| 0 <= j < s.len() ==> s[j] != '.',
    ensures
        first_dot(s) == -1,
    decreases s.len(),
{
    if s.len() > 0 {
        let t = s.drop_first();
        assert forall|j: int| 0 <= j < t.len() implies t[j] != '.' by {
            assert(s[j + 1] != '.');
        }
        lemma_first_dot_none(t);
    }
}

/// A product with a factor of at least one never falls below the other factor.
proof fn lemma_mul_at_least(a: int, b: int)
    by (nonlinear_arith)
    requires
        a >= 1,
        b >= 0,
    ensures
        a * b >= b,
        b * a >= b,
{
}

/// A product of non-negative factors is non-negative.
proof fn lemma_mul_nonneg(a: int, b: int)
    by (nonlinear_arith)
    requires
        a >= 0,
        b >= 0,
    ensures
        a * b >= 0,
{
}

/// A product with a zero factor is zero.
proof fn lemma_mul_zero(a: int, b: int)
    by (nonlinear_arith)
    requires
        a == 0,
    ensures
        a * b == 0,
{
}

/// Whether `c` is a decimal digit.
fn is_dec_digit(c: char) -> (r: bool)
    ensures
        r == is_dec_digit_char(c),
{
    let u = c as u32;
    48 <= u && u <= 57
}

/// Whether `s` is a non-empty run of decimal digits.
fn is_digit_run(s: &str) -> (r: bool)
    ensures
        r == (s@.len() > 0 && all_dec_digits(s@)),
{
    let n = s.unicode_len();
    if n == 0 {
        return false;
    }
    let mut i: usize = 0;
    while i < n
        invariant
            n == s@.len(),
            i <= n,
            forall|j: int| 0 <= j < i ==> is_dec_digit_char(#[trigger] s@[j]),
        decreases n - i,
    {
        if !is_dec_digit(s.get_char(i)) {
            proof {
                assert(!is_dec_digit_char(s@[i as int]));
            }
            return false;
        }
        i += 1;
    }
    true
}

/// Accumulates the value of a digit run; `None` when it exceeds `u128`.
fn accumulate_digits(s: &str) -> (r: Option<u128>)
    requires
        all_dec_digits(s@),
    ensures
        match r {
            Some(v) => dec_value(s@) <= u128::MAX && v as int == dec_value(s@),
            None => dec_value(s@) > u128::MAX,
        },
{
    let n = s.unicode_len();
    let mut acc: u128 = 0;
    let mut i: usize = 0;
    proof {
        assert(s@.take(0) =~= Seq::<char>::empty());
    }
    while i < n
        invariant
            n == s@.len(),
            i <= n,
            all_dec_digits(s@),
            acc as int == dec_value(s@.take(i as int)),
        decreases n - i,
    {
        let c = s.get_char(i);
        proof {
            assert(is_dec_digit_char(s@[i as int]));
            lemma_dec_value_take_step(s@, i as int);
        }
        let d: u128 = ((c as u32) - 48) as u128;
        let acc10 = match acc.checked_mul(10) {
            Some(x) => x,
            None => {
                proof {
                    lemma_dec_value_prefix_le(s@, i as int + 1);
                }
                return None;
            },
        };
        acc = match acc10.checked_add(d) {
            Some(x) => x,
            None => {
                proof {
                    lemma_dec_value_prefix_le(s@, i as int + 1);
                }
                return None;
            },
        };
        i += 1;
    }
    proof {
        assert(s@.take(n as int) =~= s@);
    }
    Some(acc)
}

/// Ten to the power `e` as a `u128`; `None` when it exceeds `u128`.
fn pow10_checked(e: u32) -> (r: Option<u128>)
    ensures
        match r {
            Some(v) => pow10(e as nat) <= u128::MAX && v as int == pow10(e as nat),
            None => pow10(e as nat) > u128::MAX,
        },
{
    let mut acc: u128 = 1;
    let mut k: u32 = 0;
    while k < e
        invariant
            k <= e,
            acc as int == pow10(k as nat),
        decreases e - k,
    {
        acc = match acc.checked_mul(10) {
            Some(x) => x,
            None => {
                proof {
                    lemma_pow10_le((k + 1) as nat, e as nat);
                }
                return None;
            },
        };
        k += 1;
    }
    Some(acc)
}

/// Converts a human decimal amount, scaled by the unit's base-ten exponent,
/// into exact integer base units; rejects non-numeric text, more fractional
/// digits than the unit supports, and values beyond 128 bits.
pub fn parse_amount(text: &str, decimals: u32) -> (r: Result<u128, ParseError>)
    ensures
        match r {
            Ok(v) => amount_shape_ok(text@) && amount_within_unit(text@, decimals as nat)
                && amount_value(text@, decimals as nat) <= u128::MAX && v as int == amount_value(
                text@,
                decimals as nat,
            ),
            Err(ParseError::NotNumeric) => !amount_shape_ok(text@),
            Err(ParseError::TooManyFractionalDigits) => amount_shape_ok(text@)
                && !amount_within_unit(text@, decimals as nat),
            Err(ParseError::AmountTooLarge) => amount_shape_ok(text@) && amount_within_unit(
                text@,
                decimals as nat,
            ) && amount_value(text@, decimals as nat) > u128::MAX,
            Err(_) => false,
        },
{
    let n = text.unicode_len();
    let mut dot: usize = 0;
    let mut dot_found = false;
    let mut i: usize = 0;
    loop
        invariant_except_break
            n == text@.len(),
            i <= n,
            !dot_found,
            forall|j: int| 0 <= j < i ==> text@[j] != '.',
        ensures
            n == text@.len(),
            dot_found ==> dot < n && text@[dot as int] == '.' && (forall|j: int|
                0 <= j < dot ==> text@[j] != '.'),
            !dot_found ==> (forall|j: int| 0 <= j < n ==> text@[j] != '.'),
        decreases n - i,
    {
        if i >= n {
            break;
        }
        if text.get_char(i) == '.' {
            dot_found = true;
            dot = i;
            break;
        }
        i += 1;
    }
    if dot_found {
        proof {
            lemma_first_dot_at(text@, dot as int);
        }
        let ip = text.substring_char(0, dot);
        let fp = text.substring_char(dot + 1, n);
        proof {
            assert(ip@ =~= text@.take(dot as int));
            assert(fp@ =~= text@.skip(dot as int + 1));
        }
        if !is_digit_run(ip) {
            return Err(ParseError::NotNumeric);
        }
        if !is_digit_run(fp) {
            return Err(ParseError::NotNumeric);
        }
        let fl = n - dot - 1;
        if fl > decimals as usize {
            return Err(ParseError::TooManyFractionalDigits);
        }
        let ghost dec = decimals as nat;
        let ghost e2g = (dec - fractional_len(text@)) as nat;
        proof {
            lemma_dec_value_nonneg(ip@);
            lemma_dec_value_nonneg(fp@);
            lemma_pow10_pos(dec);
            lemma_pow10_pos(e2g);
            lemma_mul_nonneg(dec_value(ip@), pow10(dec));
            lemma_mul_nonneg(dec_value(fp@), pow10(e2g));
        }
        let iv = match accumulate_digits(ip) {
            Some(v) => v,
            None => {
                proof {
                    lemma_mul_at_least(pow10(dec), dec_value(ip@));
                }
                return Err(ParseError::AmountTooLarge);
            },
        };
        let fv = match accumulate_digits(fp) {
            Some(v) => v,
            None => {
                proof {
                    lemma_mul_at_least(pow10(e2g), dec_value(fp@));
                }
                return Err(ParseError::AmountTooLarge);
            },
        };
        let e2: u32 = decimals - (fl as u32);
        let term1: u128 = if iv == 0 {
            0
        } else {
            let p = match pow10_checked(decimals) {
                Some(p) => p,
                None => {
                    proof {
                        lemma_mul_at_least(iv as int, pow10(dec));
                    }
                    return Err(ParseError::AmountTooLarge);
                },
            };
            match iv.checked_mul(p) {
                Some(x) => x,
                None => {
                    return Err(ParseError::AmountTooLarge);
                },
            }
        };
        proof {
            if iv == 0 {
                lemma_mul_zero(dec_value(ip@), pow10(dec));
            }
            assert(term1 as int == dec_value(ip@) * pow10(dec));
        }
        let term2: u128 = if fv == 0 {
            0
        } else {
            let p = match pow10_checked(e2) {
                Some(p) => p,
                None => {
                    proof {
                        lemma_mul_at_least(fv as int, pow10(e2g));
                    }
                    return Err(ParseError::AmountTooLarge);
                },
            };
            match fv.checked_mul(p) {
                Some(x) => x,
                None => {
                    return Err(ParseError::AmountTooLarge);
                },
            }
        };
        proof {
            if fv == 0 {
                lemma_mul_zero(dec_value(fp@), pow10(e2g));
            }
            assert(term2 as int == dec_value(fp@) * pow10(e2g));
        }
        match term1.checked_add(term2) {
            Some(v) => Ok(v),
            None => Err(ParseError::AmountTooLarge),
        }
    } else {
        proof {
            lemma_first_dot_none(text@);
        }
        if !is_digit_run(text) {
            return Err(ParseError::NotNumeric);
        }
        let ghost dec = decimals as nat;
        proof {
            lemma_dec_value_nonneg(text@);
            lemma_pow10_pos(dec);
            lemma_mul_nonneg(dec_value(text@), pow10(dec));
        }
        let iv = match accumulate_digits(text) {
            Some(v) => v,
            None => {
                proof {
                    lemma_mul_at_least(pow10(dec), dec_value(text@));
                }
                return Err(ParseError::AmountTooLarge);
            },
        };
        if iv == 0 {
            proof {
                lemma_mul_zero(dec_value(text@), pow10(dec));
            }
            return Ok(0);
        }
        let p = match pow10_checked(decimals) {
            Some(p) => p,
            None => {
                proof {
                    lemma_mul_at_least(iv as int, pow10(dec));
                }
                return Err(ParseError::AmountTooLarge);
            },
        };
        match iv.checked_mul(p) {
            Some(x) => Ok(x),
            None => Err(ParseError::AmountTooLarge),
        }
    }
}

} // verus!
