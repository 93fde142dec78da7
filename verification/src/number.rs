//! Text of 32-bit signed integers: the exact decimal text of a value, and
//! the value of a text, written in decimal or, after the mark `0x`, in
//! hexadecimal.

use vstd::prelude::*;
use vstd::string::*;

verus! {

/// The value of `c` as a digit: `0` to `9` always, and `a` to `f` in either
/// case where `hex` is set.
pub open spec fn digit_value(c: char, hex: bool) -> Option<int> {
    if '0' <= c && c <= '9' {
        Some(c as int - '0' as int)
    } else if hex && 'a' <= c && c <= 'f' {
        Some(c as int - 'a' as int + 10)
    } else if hex && 'A' <= c && c <= 'F' {
        Some(c as int - 'A' as int + 10)
    } else {
        None
    }
}

/// Whether `c` is a digit: decimal, or hexadecimal where `hex` is set.
pub open spec fn is_digit(c: char, hex: bool) -> bool {
    digit_value(c, hex) is Some
}

/// `v` moved up by one digit: times sixteen where `hex` is set, else times ten.
pub open spec fn scaled(v: int, hex: bool) -> int {
    if hex {
        16 * v
    } else {
        10 * v
    }
}

/// The character that writes the digit `d`.
pub open spec fn digit_char(d: int) -> char {
    if d == 0 {
        '0'
    } else if d == 1 {
        '1'
    } else if d == 2 {
        '2'
    } else if d == 3 {
        '3'
    } else if d == 4 {
        '4'
    } else if d == 5 {
        '5'
    } else if d == 6 {
        '6'
    } else if d == 7 {
        '7'
    } else if d == 8 {
        '8'
    } else {
        '9'
    }
}

/// Whether every character of `s` is a digit.
pub open spec fn all_digits(s: Seq<char>, hex: bool) -> bool {
    forall|i: int| 0 <= i < s.len() ==> is_digit(#[trigger] s[i], hex)
}

/// The number that the digit string `s` writes (0 for the empty string), in
/// base sixteen where `hex` is set, else in base ten.
pub open spec fn digits_value(s: Seq<char>, hex: bool) -> int
    decreases s.len(),
{
    if s.len() == 0 {
        0
    } else {
        scaled(digits_value(s.drop_last(), hex), hex) + digit_value(s.last(), hex).unwrap()
    }
}

/// The integer that `s` writes as an optional sign followed by one or more digits.
pub open spec fn signed_value(s: Seq<char>, hex: bool) -> Option<int> {
    if s.len() > 0 && (s[0] == '-' || s[0] == '+') {
        if s.len() > 1 && all_digits(s.skip(1), hex) {
            if s[0] == '-' {
                Some(-digits_value(s.skip(1), hex))
            } else {
                Some(digits_value(s.skip(1), hex))
            }
        } else {
            None
        }
    } else if s.len() > 0 && all_digits(s, hex) {
        Some(digits_value(s, hex))
    } else {
        None
    }
}

/// Whether `s` opens with the mark of a hexadecimal number, `0x`.
pub open spec fn has_hex_mark(s: Seq<char>) -> bool {
    s.len() >= 2 && s[0] == '0' && s[1] == 'x'
}

/// The integer that `s` writes: after the mark `0x` a signed hexadecimal
/// number, else a signed decimal number.
pub open spec fn int_text_value(s: Seq<char>) -> Option<int> {
    if has_hex_mark(s) {
        signed_value(s.skip(2), true)
    } else {
        signed_value(s, false)
    }
}

/// The value `v` as a 32-bit signed integer, where it is in range.
pub open spec fn in_i32(v: Option<int>) -> Option<i32> {
    match v {
        Some(v) => if i32::MIN <= v <= i32::MAX {
            Some(v as i32)
        } else {
            None
        },
        None => None,
    }
}

/// The 32-bit signed integer that `s` writes, if it writes one in range.
pub open spec fn i32_of_text(s: Seq<char>) -> Option<i32> {
    in_i32(int_text_value(s))
}

/// The shortest decimal text of the natural number `n`.
pub open spec fn nat_text(n: nat) -> Seq<char>
    decreases n,
{
    if n < 10 {
        seq![digit_char(n as int)]
    } else {
        nat_text(n / 10).push(digit_char((n % 10) as int))
    }
}

/// The exact decimal text of `v`: a minus sign for a negative value, no
/// leading zeros.
pub open spec fn int_text(v: int) -> Seq<char> {
    if v < 0 {
        seq!['-'] + nat_text((-v) as nat)
    } else {
        nat_text(v as nat)
    }
}

/// A digit character is a decimal digit and has the value it writes.
pub proof fn lemma_digit_char(d: int)
    requires
        0 <= d < 10,
    ensures
        digit_value(digit_char(d), false) == Some(d),
{
}

/// The text of a natural number is a non-empty decimal digit string that writes it.
pub proof fn lemma_nat_text(n: nat)
    ensures
        nat_text(n).len() > 0,
        all_digits(nat_text(n), false),
        digits_value(nat_text(n), false) == n,
    decreases n,
{
    if n < 10 {
        lemma_digit_char(n as int);
        let s = nat_text(n);
        assert(s.drop_last() =~= Seq::<char>::empty());
        assert(digits_value(s.drop_last(), false) == 0);
    } else {
        lemma_nat_text(n / 10);
        lemma_digit_char((n % 10) as int);
        let s = nat_text(n);
        assert(s.drop_last() =~= nat_text(n / 10));
        assert(s.last() == digit_char((n % 10) as int));
    }
}

/// Reading the exact text of an integer gives that integer back.
pub proof fn lemma_int_text_round_trip(v: int)
    ensures
        int_text_value(int_text(v)) == Some(v),
{
    let s = int_text(v);
    if v < 0 {
        let m = (-v) as nat;
        lemma_nat_text(m);
        assert(s.skip(1) =~= nat_text(m));
        assert(s[0] == '-');
    } else {
        lemma_nat_text(v as nat);
        assert(is_digit(s[0], false));
        if s.len() >= 2 {
            assert(is_digit(s[1], false));
        }
    }
}

/// Reading the exact text of a 32-bit value gives that value back.
pub proof fn lemma_i32_text_round_trip(v: i32)
    ensures
        i32_of_text(int_text(v as int)) == Some(v),
{
    lemma_int_text_round_trip(v as int);
}

/// A digit string writes a number that is not negative.
pub proof fn lemma_digits_nonnegative(s: Seq<char>, hex: bool)
    requires
        all_digits(s, hex),
    ensures
        0 <= digits_value(s, hex),
    decreases s.len(),
{
    if s.len() > 0 {
        lemma_digits_nonnegative(s.drop_last(), hex);
        assert(is_digit(s.last(), hex));
    }
}

/// A longer digit string writes a number at least as large as any of its prefixes.
pub proof fn lemma_digits_value_prefix(s: Seq<char>, hex: bool, k: int)
    requires
        all_digits(s, hex),
        0 <= k <= s.len(),
    ensures
        0 <= digits_value(s.take(k), hex) <= digits_value(s, hex),
    decreases s.len() - k,
{
    lemma_digits_nonnegative(s.take(k), hex);
    if k < s.len() {
        lemma_digits_value_prefix(s, hex, k + 1);
        let t = s.take(k + 1);
        assert(t.drop_last() =~= s.take(k));
        assert(is_digit(t.last(), hex));
    } else {
        assert(s.take(k) =~= s);
    }
}

/// The characters that a byte string stands for, each byte one character.
pub open spec fn chars_of(bytes: Seq<u8>) -> Seq<char> {
    Seq::new(bytes.len(), |i: int| bytes[i] as char)
}

/// A text that writes an integer is made of ASCII characters only.
pub proof fn lemma_int_text_is_ascii(s: Seq<char>)
    requires
        int_text_value(s) is Some,
    ensures
        forall|i: int| 0 <= i < s.len() ==> '\0' <= #[trigger] s[i] <= '\u{7f}',
{
    assert forall|i: int| 0 <= i < s.len() implies '\0' <= #[trigger] s[i] <= '\u{7f}' by {
        let hex = has_hex_mark(s);
        let body = if hex {
            s.skip(2)
        } else {
            s
        };
        let at = if hex {
            i - 2
        } else {
            i
        };
        if at >= 0 {
            assert(body[at] == s[i]);
            if body[0] == '-' || body[0] == '+' {
                if at >= 1 {
                    assert(body.skip(1)[at - 1] == s[i]);
                    assert(is_digit(body.skip(1)[at - 1], hex));
                }
            } else {
                assert(is_digit(body[at], hex));
            }
        }
    }
}

/// The one-character text of the digit `d`.
fn digit_str(d: u64) -> (r: &'static str)
    requires
        d < 10,
    ensures
        r@ == seq![digit_char(d as int)],
{
    proof {
        reveal_strlit("0");
        reveal_strlit("1");
        reveal_strlit("2");
        reveal_strlit("3");
        reveal_strlit("4");
        reveal_strlit("5");
        reveal_strlit("6");
        reveal_strlit("7");
        reveal_strlit("8");
        reveal_strlit("9");
    }
    let r = if d == 0 {
        "0"
    } else if d == 1 {
        "1"
    } else if d == 2 {
        "2"
    } else if d == 3 {
        "3"
    } else if d == 4 {
        "4"
    } else if d == 5 {
        "5"
    } else if d == 6 {
        "6"
    } else if d == 7 {
        "7"
    } else if d == 8 {
        "8"
    } else {
        "9"
    };
    assert(r@ =~= seq![digit_char(d as int)]);
    r
}

/// Appends the shortest decimal text of `n` to `out`.
pub fn push_nat(out: &mut String, n: u64)
    ensures
        final(out)@ == old(out)@ + nat_text(n as nat),
    decreases n,
{
    if n >= 10 {
        push_nat(out, n / 10);
    }
    out.append(digit_str(n % 10));
    assert(out@ =~= old(out)@ + nat_text(n as nat));
}

/// The exact decimal text of `v`.
pub fn format_i32(v: i32) -> (r: String)
    ensures
        r@ == int_text(v as int),
{
    let mut out = String::new();
    if v < 0 {
        proof {
            reveal_strlit("-");
        }
        out.append("-");
        let m: i64 = -(v as i64);
        push_nat(&mut out, m as u64);
        assert(out@ =~= int_text(v as int));
    } else {
        push_nat(&mut out, v as u64);
        assert(out@ =~= int_text(v as int));
    }
    out
}

/// The value of the byte `b` as a digit.
fn digit_of_byte(b: u8, hex: bool) -> (r: Option<i64>)
    ensures
        match r {
            Some(d) => digit_value(b as char, hex) == Some(d as int) && 0 <= d < 16,
            None => digit_value(b as char, hex).is_none(),
        },
{
    if 48 <= b && b <= 57 {
        Some((b - 48) as i64)
    } else if hex && 97 <= b && b <= 102 {
        Some((b - 97 + 10) as i64)
    } else if hex && 65 <= b && b <= 70 {
        Some((b - 65 + 10) as i64)
    } else {
        None
    }
}

/// Reads what follows the first `from` bytes as an optional sign and one or
/// more digits, within the range of a 32-bit signed integer.
fn parse_signed(bytes: &[u8], from: usize, hex: bool) -> (r: Option<i32>)
    requires
        from <= bytes@.len(),
    ensures
        r == in_i32(signed_value(chars_of(bytes@).skip(from as int), hex)),
{
    let n: usize = bytes.len();
    let ghost body = chars_of(bytes@).skip(from as int);
    if from >= n {
        return None;
    }
    let first: u8 = bytes[from];
    assert(body[0] == first as char);
    let signed: bool = first == 45 || first == 43;
    let start: usize = if signed { from + 1 } else { from };
    if start >= n {
        return None;
    }
    let ghost digits = chars_of(bytes@).skip(start as int);
    proof {
        if signed {
            assert(digits =~= body.skip(1));
        } else {
            assert(digits =~= body);
        }
    }
    let mut acc: i64 = 0;
    let mut i: usize = start;
    let limit: i64 = 2147483648;
    while i < n
        invariant
            start <= i <= n,
            n == bytes@.len(),
            digits == chars_of(bytes@).skip(start as int),
            body == chars_of(bytes@).skip(from as int),
            body.len() > 0,
            body[0] == first as char,
            signed == (first == 45 || first == 43),
            signed ==> body.len() > 1 && digits == body.skip(1),
            !signed ==> digits == body,
            all_digits(digits.take(i - start), hex),
            acc == digits_value(digits.take(i - start), hex),
            limit == 2147483648,
            0 <= acc <= limit,
        decreases n - i,
    {
        let b: u8 = bytes[i];
        assert(digits[i - start] == b as char);
        let d: i64 = match digit_of_byte(b, hex) {
            Some(d) => d,
            None => {
                assert(!all_digits(digits, hex));
                return None;
            },
        };
        let ghost prev = digits.take(i - start);
        let ghost next = digits.take(i - start + 1);
        proof {
            assert(next.drop_last() =~= prev);
            assert(next.last() == b as char);
            assert(all_digits(next, hex)) by {
                assert forall|j: int| 0 <= j < next.len() implies is_digit(
                    #[trigger] next[j],
                    hex,
                ) by {
                    if j < prev.len() {
                        assert(next[j] == prev[j]);
                    }
                }
            }
        }
        let value: i64 = if hex {
            acc * 16 + d
        } else {
            acc * 10 + d
        };
        if value > limit {
            proof {
                // every longer digit string writes a number that is larger still
                if all_digits(digits, hex) {
                    lemma_digits_value_prefix(digits, hex, i - start + 1);
                }
            }
            return None;
        }
        acc = value;
        i += 1;
    }
    proof {
        assert(digits.take(n - start) =~= digits);
    }
    if first == 45 {
        Some((-acc) as i32)
    } else if acc == limit {
        None
    } else {
        Some(acc as i32)
    }
}

/// Reads a 32-bit signed integer: an optional sign, then one or more decimal
/// digits; or the mark `0x`, an optional sign, then one or more hexadecimal
/// digits; and in either form a value within the type's range. Any other text
/// gives `None`.
pub fn parse_i32(text: &str) -> (r: Option<i32>)
    ensures
        r == i32_of_text(text@),
{
    if !text.is_ascii() {
        proof {
            if int_text_value(text@) is Some {
                lemma_int_text_is_ascii(text@);
            }
        }
        return None;
    }
    let bytes: &[u8] = text.as_bytes();
    proof {
        is_ascii_spec_bytes(text);
        assert(chars_of(bytes@) =~= text@);
    }
    proof {
        if bytes@.len() >= 2 {
            assert(text@[0] == bytes@[0] as char);
            assert(text@[1] == bytes@[1] as char);
        }
        assert(chars_of(bytes@).skip(0) =~= text@);
    }
    if bytes.len() >= 2 && bytes[0] == 48 && bytes[1] == 120 {
        parse_signed(bytes, 2, true)
    } else {
        parse_signed(bytes, 0, false)
    }
}

} // verus!
