//! Surrogate identifiers: 128-bit values, written as 32 hexadecimal digits
//! in five hyphen-separated groups.

use vstd::prelude::*;
use crate::text::push_char;

verus! {

/// A surrogate identifier.
pub type Id = u128;

/// The character for the hexadecimal digit `d`, in lower case.
pub open spec fn hex_digit(d: int) -> char {
    if d < 10 {
        ((d + 48) as u8) as char
    } else {
        ((d + 87) as u8) as char
    }
}

/// The last `width` hexadecimal digits of `n`, with leading zeros.
pub open spec fn hex_padded(n: nat, width: nat) -> Seq<char>
    decreases width,
{
    if width == 0 {
        Seq::empty()
    } else {
        hex_padded(n / 16, (width - 1) as nat).push(hex_digit((n % 16) as int))
    }
}

/// The text of an identifier: its 32 hexadecimal digits in groups of 8,
/// 4, 4, 4 and 12.
pub open spec fn id_text_of(id: Id) -> Seq<char> {
    let h = hex_padded(id as nat, 32);
    h.subrange(0, 8) + seq!['-'] + h.subrange(8, 12) + seq!['-'] + h.subrange(12, 16) + seq!['-']
        + h.subrange(16, 20) + seq!['-'] + h.subrange(20, 32)
}

pub proof fn lemma_hex_padded_len(n: nat, width: nat)
    ensures
        hex_padded(n, width).len() == width,
    decreases width,
{
    if width > 0 {
        lemma_hex_padded_len(n / 16, (width - 1) as nat);
    }
}

/// The character of a hexadecimal digit.
pub(crate) fn hex_char(d: u8) -> (c: char)
    requires
        d < 16,
    ensures
        c == hex_digit(d as int),
{
    if d < 10 {
        (d + 48) as char
    } else {
        (d + 87) as char
    }
}

/// The last `width` hexadecimal digits of `n`.
pub fn hex_digits(n: u128, width: usize) -> (v: Vec<char>)
    ensures
        v@ == hex_padded(n as nat, width as nat),
    decreases width,
{
    if width == 0 {
        Vec::new()
    } else {
        let mut v = hex_digits(n / 16, width - 1);
        v.push(hex_char((n % 16) as u8));
        v
    }
}

/// Appends `v[from..to]` to `s`.
fn push_range(s: &mut String, v: &Vec<char>, from: usize, to: usize)
    requires
        from <= to <= v.len(),
    ensures
        final(s)@ == old(s)@ + v@.subrange(from as int, to as int),
{
    let mut i: usize = from;
    assert(v@.subrange(from as int, from as int) == Seq::<char>::empty());
    while i < to
        invariant
            from <= i <= to <= v.len(),
            s@ == old(s)@ + v@.subrange(from as int, i as int),
        decreases to - i,
    {
        push_char(s, v[i]);
        assert(v@.subrange(from as int, i + 1) == v@.subrange(from as int, i as int).push(
            v@[i as int],
        ));
        i = i + 1;
    }
}

/// The text of an identifier.
pub fn id_text(id: Id) -> (s: String)
    ensures
        s@ == id_text_of(id),
{
    let h = hex_digits(id, 32);
    proof {
        lemma_hex_padded_len(id as nat, 32);
    }
    let mut s = String::new();
    push_range(&mut s, &h, 0, 8);
    push_char(&mut s, '-');
    push_range(&mut s, &h, 8, 12);
    push_char(&mut s, '-');
    push_range(&mut s, &h, 12, 16);
    push_char(&mut s, '-');
    push_range(&mut s, &h, 16, 20);
    push_char(&mut s, '-');
    push_range(&mut s, &h, 20, 32);
    s
}

/// Draws a fresh identifier.
///
/// Trusted: `uuid::Uuid::new_v4` returns a random identifier; nothing is
/// claimed of it. `Uuid::as_u128` hands out its 128 bits.
#[verifier::external_body]
pub(crate) fn fresh_id() -> (id: Id) {
    uuid::Uuid::new_v4().as_u128()
}

} // verus!
