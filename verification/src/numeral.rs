//! Numerals in text: decimal rendering of integers, integer parsing in a
//! radix, and the grammar of decimal floating-point numerals.

use vstd::prelude::*;
use crate::text::{chars_of, push_char};

verus! {

/// The value of `c` as a digit: 0 to 9 for decimal digits, 10 to 35 for
/// ASCII letters of either case, 36 (no digit in any radix) otherwise.
pub open spec fn digit_value(c: char) -> int {
    let n = c as int;
    if 48 <= n <= 57 {
        n - 48
    } else if 97 <= n <= 122 {
        n - 97 + 10
    } else if 65 <= n <= 90 {
        n - 65 + 10
    } else {
        36
    }
}

/// Every character of `s` is a digit in `radix`.
pub open spec fn all_digits(s: Seq<char>, radix: int) -> bool {
    forall|i: int| 0 <= i < s.len() ==> digit_value(#[trigger] s[i]) < radix
}

/// The number that the digit string `s` denotes in `radix`.
pub open spec fn magnitude(s: Seq<char>, radix: int) -> int
    decreases s.len(),
{
    if s.len() == 0 {
        0
    } else {
        magnitude(s.drop_last(), radix) * radix + digit_value(s.last())
    }
}

/// `s` without one leading `+` or `-`.
pub open spec fn unsigned_part(s: Seq<char>) -> Seq<char> {
    if s.len() > 0 && (s[0] == '+' || s[0] == '-') {
        s.drop_first()
    } else {
        s
    }
}

/// The integer that `s` denotes in `radix`: an optional sign followed by
/// one or more digits and nothing else.
pub open spec fn signed_numeral(s: Seq<char>, radix: int) -> Option<int> {
    let body = unsigned_part(s);
    if body.len() > 0 && all_digits(body, radix) {
        if s[0] == '-' {
            Some(-magnitude(body, radix))
        } else {
            Some(magnitude(body, radix))
        }
    } else {
        None
    }
}

/// `value` if it lies within `lo..=hi`.
pub open spec fn within(value: Option<int>, lo: int, hi: int) -> Option<i64> {
    match value {
        Some(x) => if lo <= x <= hi {
            Some(x as i64)
        } else {
            None
        },
        None => None,
    }
}

pub proof fn lemma_magnitude_grows(s: Seq<char>, k: int, radix: int)
    requires
        all_digits(s, radix),
        0 <= k <= s.len(),
        1 <= radix,
    ensures
        0 <= magnitude(s.take(k), radix) <= magnitude(s, radix),
    decreases s.len(),
{
    if s.len() == 0 {
        assert(s.take(k) == s);
    } else if k == s.len() {
        assert(s.take(k) == s);
        lemma_magnitude_grows(s.drop_last(), k - 1, radix);
        let m = magnitude(s.drop_last(), radix);
        assert(0 <= m * radix) by (nonlinear_arith)
            requires
                0 <= m,
                1 <= radix,
        ;
    } else {
        lemma_magnitude_grows(s.drop_last(), k, radix);
        assert(s.drop_last().take(k) == s.take(k));
        let m = magnitude(s.drop_last(), radix);
        assert(m <= m * radix) by (nonlinear_arith)
            requires
                0 <= m,
                1 <= radix,
        ;
    }
}

/// The digit value of a character, 36 where it is no digit.
pub fn digit_of(c: char) -> (d: u32)
    ensures
        d == digit_value(c),
        d <= 36,
{
    let n: u32 = c as u32;
    if 48 <= n && n <= 57 {
        n - 48
    } else if 97 <= n && n <= 122 {
        n - 97 + 10
    } else if 65 <= n && n <= 90 {
        n - 65 + 10
    } else {
        36
    }
}

/// Reads the characters of `v` from `start` on as a signed integer in
/// `radix`, and returns it if it lies within `lo..=hi`.
pub(crate) fn parse_integer(v: &Vec<char>, start: usize, radix: u32, lo: i64, hi: i64) -> (r: Option<
    i64,
>)
    requires
        start <= v.len(),
        2 <= radix <= 36,
    ensures
        r == within(signed_numeral(v@.skip(start as int), radix as int), lo as int, hi as int),
{
    let ghost s = v@.skip(start as int);
    let n = v.len();
    if start == n {
        return None;
    }
    let negative = v[start] == '-';
    let first: usize = if v[start] == '-' || v[start] == '+' {
        start + 1
    } else {
        start
    };
    let ghost body = unsigned_part(s);
    assert(body == v@.skip(first as int));
    if first == n {
        return None;
    }
    let limit: i128 = 0x8000_0000_0000_0000;
    let mut acc: i128 = 0;
    let mut i: usize = first;
    assert(body.take(0) == Seq::<char>::empty());
    while i < n
        invariant
            first <= i <= n == v.len(),
            body == v@.skip(first as int),
            2 <= radix <= 36,
            limit == 0x8000_0000_0000_0000,
            0 <= acc <= limit,
            acc == magnitude(body.take(i - first), radix as int),
            all_digits(body.take(i - first), radix as int),
            s == v@.skip(start as int),
            body == unsigned_part(s),
            body.len() > 0,
        decreases n - i,
    {
        let d = digit_of(v[i]);
        if d >= radix {
            assert(digit_value(body[i - first]) >= radix);
            return None;
        }
        let ghost next = body.take(i - first + 1);
        assert(next.drop_last() == body.take(i - first));
        assert(next.last() == v@[i as int]);
        assert(acc * (radix as i128) <= limit * 36) by (nonlinear_arith)
            requires
                0 <= acc <= limit,
                2 <= radix <= 36,
        ;
        acc = acc * (radix as i128) + (d as i128);
        assert(all_digits(next, radix as int)) by {
            assert forall|j: int| 0 <= j < next.len() implies digit_value(#[trigger] next[j])
                < radix by {
                if j < i - first {
                    assert(next[j] == body.take(i - first)[j]);
                }
            }
        }
        if acc > limit {
            proof {
                if all_digits(body, radix as int) {
                    lemma_magnitude_grows(body, i - first + 1, radix as int);
                }
            }
            return None;
        }
        i = i + 1;
    }
    assert(body.take(n - first) == body);
    let value: i128 = if negative {
        -acc
    } else {
        acc
    };
    if (lo as i128) <= value && value <= (hi as i128) {
        Some(value as i64)
    } else {
        None
    }
}

/// The integer that a delimited-text field denotes: hexadecimal after the
/// prefix `0x`, decimal otherwise.
pub open spec fn field_integer(s: Seq<char>) -> Option<int> {
    if s.len() >= 2 && s[0] == '0' && s[1] == 'x' {
        signed_numeral(s.skip(2), 16)
    } else {
        signed_numeral(s, 10)
    }
}

/// Reads a delimited-text field as an integer of 32 bits.
pub fn parse_field_i32(field: &str) -> (r: Option<i32>)
    ensures
        r == narrowed(within(field_integer(field@), i32::MIN as int, i32::MAX as int)),
{
    let v = chars_of(field);
    let wide = if v.len() >= 2 && v[0] == '0' && v[1] == 'x' {
        parse_integer(&v, 2, 16, i32::MIN as i64, i32::MAX as i64)
    } else {
        assert(v@.skip(0) == v@);
        parse_integer(&v, 0, 10, i32::MIN as i64, i32::MAX as i64)
    };
    match wide {
        Some(x) => Some(x as i32),
        None => None,
    }
}

/// An integer as one of 32 bits.
pub open spec fn narrowed(value: Option<i64>) -> Option<i32> {
    match value {
        Some(x) => Some(x as i32),
        None => None,
    }
}

/// Reads a text as a decimal integer of 64 bits.
pub fn parse_i64(text: &str) -> (r: Option<i64>)
    ensures
        r == within(signed_numeral(text@, 10), i64::MIN as int, i64::MAX as int),
{
    let v = chars_of(text);
    assert(v@.skip(0) == v@);
    parse_integer(&v, 0, 10, i64::MIN, i64::MAX)
}

/// Reads a text as a decimal integer of 32 bits.
pub fn parse_i32(text: &str) -> (r: Option<i32>)
    ensures
        r == narrowed(within(signed_numeral(text@, 10), i32::MIN as int, i32::MAX as int)),
{
    let v = chars_of(text);
    assert(v@.skip(0) == v@);
    match parse_integer(&v, 0, 10, i32::MIN as i64, i32::MAX as i64) {
        Some(x) => Some(x as i32),
        None => None,
    }
}

/// The character for the decimal digit `d`.
pub open spec fn digit_char(d: int) -> char {
    ((d + 48) as u8) as char
}

/// The decimal numeral of `n`, without sign or leading zeros.
pub open spec fn decimal(n: nat) -> Seq<char>
    decreases n,
{
    if n < 10 {
        seq![digit_char(n as int)]
    } else {
        decimal(n / 10).push(digit_char((n % 10) as int))
    }
}

/// Appends the decimal numeral of `n` to `s`.
pub fn push_decimal(s: &mut String, n: u128)
    ensures
        final(s)@ == old(s)@ + decimal(n as nat),
    decreases n,
{
    if n >= 10 {
        push_decimal(s, n / 10);
    }
    let d: u8 = (n % 10) as u8;
    push_char(s, (d + 48) as char);
}

/// The decimal numeral of `n`.
pub fn decimal_string(n: u128) -> (s: String)
    ensures
        s@ == decimal(n as nat),
{
    let mut s = String::new();
    push_decimal(&mut s, n);
    s
}

/// `c` is a decimal digit.
pub open spec fn is_dec_digit(c: char) -> bool {
    48 <= c as int <= 57
}

/// The end of the run of decimal digits of `s` that starts at `from`.
pub open spec fn digits_end(s: Seq<char>, from: int) -> int
    decreases s.len() - from,
{
    if 0 <= from < s.len() && is_dec_digit(s[from]) {
        digits_end(s, from + 1)
    } else {
        from
    }
}

/// `c` with an ASCII capital letter turned into its small letter.
pub open spec fn ascii_lower(c: char) -> char {
    if 65 <= c as int <= 90 {
        ((c as int + 32) as u8) as char
    } else {
        c
    }
}

/// `s` is `word` up to the case of ASCII letters; `word` is in lower case.
pub open spec fn spells(s: Seq<char>, word: Seq<char>) -> bool {
    s.len() == word.len() && forall|i: int| 0 <= i < s.len() ==> ascii_lower(#[trigger] s[i]) == word[i]
}

/// `s` is one of the words for an infinity or a not-a-number.
pub open spec fn is_special_float(s: Seq<char>) -> bool {
    spells(s, "inf"@) || spells(s, "infinity"@) || spells(s, "nan"@)
}

/// From `at` on, `s` holds nothing, or an exponent: `e` or `E`, an
/// optional sign, and one or more digits up to the end.
pub open spec fn exponent_ok(s: Seq<char>, at: int) -> bool {
    at == s.len() || (0 <= at < s.len() && (s[at] == 'e' || s[at] == 'E') && {
        let from = if at + 1 < s.len() && (s[at + 1] == '+' || s[at + 1] == '-') {
            at + 2
        } else {
            at + 1
        };
        from < digits_end(s, from) == s.len()
    })
}

/// The end of the digits and the point that precede the exponent of `s`.
pub open spec fn mantissa_end(s: Seq<char>) -> int {
    let a = digits_end(s, 0);
    if a < s.len() && s[a] == '.' {
        digits_end(s, a + 1)
    } else {
        a
    }
}

/// The number of digits before the exponent of `s`.
pub open spec fn mantissa_digits(s: Seq<char>) -> int {
    let a = digits_end(s, 0);
    if a < s.len() && s[a] == '.' {
        mantissa_end(s) - 1
    } else {
        a
    }
}

/// `s` is an unsigned decimal number: digits with at most one point among
/// them, at least one digit, and an optional exponent.
pub open spec fn is_decimal_number(s: Seq<char>) -> bool {
    mantissa_digits(s) > 0 && exponent_ok(s, mantissa_end(s))
}

/// `s` is a floating-point numeral: an optional sign, then a decimal
/// number or one of the special words.
pub open spec fn is_float_numeral(s: Seq<char>) -> bool {
    is_special_float(unsigned_part(s)) || is_decimal_number(unsigned_part(s))
}

/// `s` is a decimal number all of whose digits before the exponent are 0.
pub open spec fn denotes_zero(s: Seq<char>) -> bool {
    let body = unsigned_part(s);
    is_decimal_number(body) && forall|i: int|
        0 <= i < mantissa_end(body) ==> #[trigger] body[i] == '0' || body[i] == '.'
}

/// What a text is as a floating-point numeral.
#[derive(Clone, Copy, Debug, PartialEq, Eq, Structural)]
pub enum NumeralClass {
    /// No numeral.
    Invalid,
    /// A numeral whose digits are all zero.
    Zero,
    /// Any other numeral.
    NonZero,
}

/// The class of `s`.
pub open spec fn numeral_class(s: Seq<char>) -> NumeralClass {
    if !is_float_numeral(s) {
        NumeralClass::Invalid
    } else if denotes_zero(s) {
        NumeralClass::Zero
    } else {
        NumeralClass::NonZero
    }
}

/// The code point of a character.
pub fn code_of(c: char) -> (n: u32)
    ensures
        n == c as int,
{
    c as u32
}

/// Scans the run of digits of `v` that starts at `from`: its end, and
/// whether all of its digits are 0.
pub(crate) fn scan_digits(v: &Vec<char>, from: usize) -> (r: (usize, bool))
    requires
        from <= v.len(),
    ensures
        r.0 == digits_end(v@, from as int),
        from <= r.0 <= v.len(),
        r.1 == (forall|i: int| from <= i < r.0 ==> v@[i] == '0'),
        forall|i: int| from <= i < r.0 ==> is_dec_digit(#[trigger] v@[i]),
{
    let n = v.len();
    let mut i: usize = from;
    let mut zeros = true;
    while i < n
        invariant
            from <= i <= n == v.len(),
            digits_end(v@, from as int) == digits_end(v@, i as int),
            zeros == (forall|k: int| from <= k < i ==> v@[k] == '0'),
            forall|k: int| from <= k < i ==> is_dec_digit(#[trigger] v@[k]),
        ensures
            from <= i <= n,
            digits_end(v@, from as int) == i,
            zeros == (forall|k: int| from <= k < i ==> v@[k] == '0'),
            forall|k: int| from <= k < i ==> is_dec_digit(#[trigger] v@[k]),
        decreases n - i,
    {
        let c: u32 = code_of(v[i]);
        if !(48 <= c && c <= 57) {
            break;
        }
        if c != 48 {
            zeros = false;
        }
        i = i + 1;
    }
    (i, zeros)
}

/// The small letter of an ASCII capital letter, any other character as
/// it is.
pub fn to_ascii_lower(c: char) -> (r: char)
    ensures
        r == ascii_lower(c),
{
    let n: u32 = c as u32;
    if 65 <= n && n <= 90 {
        ((n + 32) as u8) as char
    } else {
        c
    }
}

/// Whether `v` is `word` up to the case of ASCII letters.
pub fn spells_word(v: &Vec<char>, word: &str) -> (b: bool)
    ensures
        b == spells(v@, word@),
{
    let w = chars_of(word);
    if v.len() != w.len() {
        return false;
    }
    let mut i: usize = 0;
    while i < v.len()
        invariant
            i <= v.len() == w.len(),
            forall|k: int| 0 <= k < i ==> ascii_lower(#[trigger] v@[k]) == w@[k],
            w@ == word@,
        decreases v.len() - i,
    {
        if to_ascii_lower(v[i]) != w[i] {
            return false;
        }
        i = i + 1;
    }
    true
}

/// The characters of `v` from `from` on.
pub(crate) fn chars_from(v: &Vec<char>, from: usize) -> (r: Vec<char>)
    requires
        from <= v.len(),
    ensures
        r@ == v@.skip(from as int),
{
    let mut r: Vec<char> = Vec::new();
    let mut i: usize = from;
    while i < v.len()
        invariant
            from <= i <= v.len(),
            r@ == v@.subrange(from as int, i as int),
        decreases v.len() - i,
    {
        r.push(v[i]);
        i = i + 1;
    }
    r
}

/// Classifies a text as a floating-point numeral.
pub fn classify_numeral(text: &str) -> (c: NumeralClass)
    ensures
        c == numeral_class(text@),
{
    let v = chars_of(text);
    let first: usize = if v.len() > 0 && (v[0] == '+' || v[0] == '-') {
        1
    } else {
        0
    };
    let body = chars_from(&v, first);
    assert(body@ == unsigned_part(v@)) by {
        assert(v@.skip(0) == v@);
    }
    let n = body.len();
    let (a, int_zeros) = scan_digits(&body, 0);
    let mut end = a;
    let mut digits = a;
    let mut zeros = int_zeros;
    if a < n && body[a] == '.' {
        let (b, frac_zeros) = scan_digits(&body, a + 1);
        end = b;
        digits = b - 1;
        zeros = int_zeros && frac_zeros;
    }
    assert(end == mantissa_end(body@));
    assert(digits == mantissa_digits(body@));
    assert(zeros == (forall|i: int| 0 <= i < end ==> #[trigger] body@[i] == '0' || body@[i] == '.')) by {
        if zeros {
            assert forall|i: int| 0 <= i < end implies #[trigger] body@[i] == '0' || body@[i] == '.' by {
                if i < a {
                } else if i > a {
                }
            }
        } else {
            let k = if int_zeros {
                choose|k: int| a + 1 <= k < end && body@[k] != '0'
            } else {
                choose|k: int| 0 <= k < a && body@[k] != '0'
            };
            assert(is_dec_digit(body@[k]));
            assert(!(body@[k] == '0' || body@[k] == '.'));
        }
    }
    let mut tail_ok = end == n;
    if end < n && (body[end] == 'e' || body[end] == 'E') {
        let from: usize = if end + 1 < n && (body[end + 1] == '+' || body[end + 1] == '-') {
            end + 2
        } else {
            end + 1
        };
        let (stop, _) = scan_digits(&body, from);
        tail_ok = from < stop && stop == n;
    }
    assert(tail_ok == exponent_ok(body@, end as int));
    if digits > 0 && tail_ok {
        if zeros {
            NumeralClass::Zero
        } else {
            NumeralClass::NonZero
        }
    } else if spells_word(&body, "inf") || spells_word(&body, "infinity") || spells_word(&body, "nan") {
        NumeralClass::NonZero
    } else {
        NumeralClass::Invalid
    }
}

/// The decimal numeral of an integer, with `-` before a negative one.
pub open spec fn signed_decimal(i: int) -> Seq<char> {
    if i < 0 {
        seq!['-'] + decimal((-i) as nat)
    } else {
        decimal(i as nat)
    }
}

/// The decimal numeral of an integer.
pub fn signed_decimal_string(i: i64) -> (s: String)
    ensures
        s@ == signed_decimal(i as int),
{
    let mut s = String::new();
    if i < 0 {
        push_char(&mut s, '-');
        push_decimal(&mut s, (-(i as i128)) as u128);
    } else {
        push_decimal(&mut s, i as u128);
    }
    s
}

/// The unsigned integer that `s` denotes in decimal: an optional `+`
/// followed by one or more digits and nothing else, if it is at most
/// `u64::MAX`.
pub open spec fn unsigned_numeral(s: Seq<char>) -> Option<u64> {
    let body = if s.len() > 0 && s[0] == '+' {
        s.drop_first()
    } else {
        s
    };
    if body.len() > 0 && all_digits(body, 10) && magnitude(body, 10) <= u64::MAX {
        Some(magnitude(body, 10) as u64)
    } else {
        None
    }
}

/// Reads a text as an unsigned decimal integer.
pub fn parse_unsigned(text: &str) -> (r: Option<u64>)
    ensures
        r == unsigned_numeral(text@),
{
    let v = chars_of(text);
    let n = v.len();
    let first: usize = if n > 0 && v[0] == '+' {
        1
    } else {
        0
    };
    let ghost body = v@.skip(first as int);
    assert(v@.skip(0) == v@);
    assert(body == if text@.len() > 0 && text@[0] == '+' {
        text@.drop_first()
    } else {
        text@
    });
    if first == n {
        return None;
    }
    let mut acc: u128 = 0;
    let mut i: usize = first;
    assert(body.take(0) == Seq::<char>::empty());
    while i < n
        invariant
            first <= i <= n == v.len(),
            body == v@.skip(first as int),
            body == if text@.len() > 0 && text@[0] == '+' {
                text@.drop_first()
            } else {
                text@
            },
            acc <= u64::MAX,
            acc == magnitude(body.take(i - first), 10),
            all_digits(body.take(i - first), 10),
        decreases n - i,
    {
        let d = digit_of(v[i]);
        if d >= 10 {
            assert(digit_value(body[i - first]) >= 10);
            return None;
        }
        let ghost next = body.take(i - first + 1);
        assert(next.drop_last() == body.take(i - first));
        assert(next.last() == v@[i as int]);
        acc = acc * 10 + (d as u128);
        assert(all_digits(next, 10)) by {
            assert forall|j: int| 0 <= j < next.len() implies digit_value(#[trigger] next[j])
                < 10 by {
                if j < i - first {
                    assert(next[j] == body.take(i - first)[j]);
                }
            }
        }
        if acc > u64::MAX as u128 {
            proof {
                if all_digits(body, 10) {
                    lemma_magnitude_grows(body, i - first + 1, 10);
                }
            }
            return None;
        }
        i = i + 1;
    }
    assert(body.take(n - first) == body);
    Some(acc as u64)
}

} // verus!
