//! Numbers, fields and white space in text, as sequences of bytes.

use vstd::prelude::*;

verus! {

/// The value of a digit, if the byte is one in that radix (at most 16).
pub open spec fn digit(c: u8, radix: nat) -> Option<nat> {
    let d: int = if 0x30 <= c <= 0x39 {
        c - 0x30
    } else if 0x61 <= c <= 0x66 {
        c - 0x61 + 10
    } else if 0x41 <= c <= 0x46 {
        c - 0x41 + 10
    } else {
        16
    };
    if d < radix {
        Some(d as nat)
    } else {
        None
    }
}

/// The number that a string of digits denotes; nothing if another byte occurs in it.
pub open spec fn digits_value(s: Seq<u8>, radix: nat) -> Option<nat>
    decreases s.len(),
{
    if s.len() == 0 {
        Some(0)
    } else {
        match (digits_value(s.drop_last(), radix), digit(s.last(), radix)) {
            (Some(high), Some(low)) => Some(high * radix + low),
            _ => None,
        }
    }
}

/// The number that a non-empty string of digits denotes.
pub open spec fn number(s: Seq<u8>, radix: nat) -> Option<nat> {
    if s.len() == 0 {
        None
    } else {
        digits_value(s, radix)
    }
}

/// A number that is at most `max`.
pub open spec fn number_upto(s: Seq<u8>, radix: nat, max: nat) -> Option<nat> {
    match number(s, radix) {
        Some(v) => if v <= max {
            Some(v)
        } else {
            None
        },
        None => None,
    }
}

/// The decimal digits of a number, without leading zeros.
pub open spec fn decimal(n: nat) -> Seq<u8>
    decreases n,
{
    if n < 10 {
        seq![(0x30 + n) as u8]
    } else {
        decimal(n / 10).push((0x30 + n % 10) as u8)
    }
}

/// One hexadecimal digit in lower case.
pub open spec fn hex_digit(d: nat) -> u8 {
    if d < 10 {
        (0x30 + d) as u8
    } else {
        (0x61 + d - 10) as u8
    }
}

/// How many numbers `width` hexadecimal digits can tell apart.
pub open spec fn pow16(width: nat) -> nat
    decreases width,
{
    if width == 0 {
        1
    } else {
        16 * pow16((width - 1) as nat)
    }
}

/// The hexadecimal digits of a number in lower case, padded with zeros to `width`.
pub open spec fn hex_padded(n: nat, width: nat) -> Seq<u8>
    decreases width,
{
    if width == 0 {
        Seq::empty()
    } else {
        hex_padded(n / 16, (width - 1) as nat).push(hex_digit(n % 16))
    }
}

/// The hexadecimal digits of a number in lower case, without leading zeros.
pub open spec fn hex(n: nat) -> Seq<u8>
    decreases n,
{
    if n < 16 {
        seq![hex_digit(n)]
    } else {
        hex(n / 16).push(hex_digit(n % 16))
    }
}

/// The fields of a string between the separators.
pub open spec fn split(s: Seq<u8>, sep: u8) -> Seq<Seq<u8>>
    decreases s.len(),
{
    if s.len() == 0 {
        seq![Seq::empty()]
    } else {
        let before = split(s.drop_last(), sep);
        if s.last() == sep {
            before.push(Seq::empty())
        } else {
            before.update(before.len() - 1, before.last().push(s.last()))
        }
    }
}

/// A digit's value never exceeds its string's.
proof fn lemma_prefix_smaller(s: Seq<u8>, radix: nat, k: int)
    requires
        0 <= k <= s.len(),
        radix >= 1,
        digits_value(s, radix) is Some,
    ensures
        digits_value(s.take(k), radix) is Some,
        digits_value(s.take(k), radix)->Some_0 <= digits_value(s, radix)->Some_0,
    decreases s.len() - k,
{
    if k == s.len() {
        assert(s.take(k) =~= s);
    } else {
        lemma_prefix_smaller(s, radix, k + 1);
        let t = s.take(k + 1);
        assert(t.drop_last() =~= s.take(k));
        let high = digits_value(s.take(k), radix)->Some_0;
        let low = digit(t.last(), radix)->Some_0;
        assert(high <= high * radix + low) by (nonlinear_arith)
            requires
                radix >= 1,
                low >= 0,
        ;
    }
}

pub fn digit_value(c: u8, radix: u64) -> (d: Option<u64>)
    requires
        radix <= 16,
    ensures
        match d {
            Some(v) => digit(c, radix as nat) == Some(v as nat),
            None => digit(c, radix as nat) is None,
        },
{
    let d: u64 = if c >= 0x30 && c <= 0x39 {
        (c - 0x30) as u64
    } else if c >= 0x61 && c <= 0x66 {
        (c - 0x61) as u64 + 10
    } else if c >= 0x41 && c <= 0x46 {
        (c - 0x41) as u64 + 10
    } else {
        16
    };
    if d < radix {
        Some(d)
    } else {
        None
    }
}

/// Reads a number that fits 64 bits.
pub fn parse_u64_radix(field: &[u8], radix: u64) -> (v: Option<u64>)
    requires
        1 <= radix <= 16,
    ensures
        match v {
            Some(x) => number_upto(field@, radix as nat, u64::MAX as nat) == Some(x as nat),
            None => number_upto(field@, radix as nat, u64::MAX as nat) is None,
        },
{
    if field.len() == 0 {
        return None;
    }
    let mut acc: u64 = 0;
    let mut i: usize = 0;
    assert(field@.take(0) =~= Seq::<u8>::empty());
    while i < field.len()
        invariant
            i <= field@.len(),
            field@.len() > 0,
            1 <= radix <= 16,
            digits_value(field@.take(i as int), radix as nat) == Some(acc as nat),
        decreases field@.len() - i,
    {
        let ghost next = field@.take(i + 1);
        assert(next.drop_last() =~= field@.take(i as int));
        assert(next.last() == field@[i as int]);
        proof {
            if digits_value(field@, radix as nat) is Some {
                lemma_prefix_smaller(field@, radix as nat, i + 1);
            }
        }
        let d: u64 = match digit_value(field[i], radix) {
            Some(d) => d,
            None => return None,
        };
        match acc.checked_mul(radix) {
            None => return None,
            Some(scaled) => match scaled.checked_add(d) {
                None => return None,
                Some(sum) => {
                    acc = sum;
                },
            },
        }
        i = i + 1;
    }
    assert(field@.take(i as int) =~= field@);
    Some(acc)
}

/// Reads a decimal number that fits 32 bits.
pub fn parse_u32_dec(field: &[u8]) -> (v: Option<u32>)
    ensures
        match v {
            Some(x) => number_upto(field@, 10, u32::MAX as nat) == Some(x as nat),
            None => number_upto(field@, 10, u32::MAX as nat) is None,
        },
{
    match parse_u64_radix(field, 10) {
        Some(v) => if v <= u32::MAX as u64 {
            Some(v as u32)
        } else {
            None
        },
        None => None,
    }
}

/// Appends the decimal digits of a number.
pub fn put_decimal(out: &mut Vec<u8>, n: u64)
    ensures
        final(out)@ == old(out)@ + decimal(n as nat),
    decreases n,
{
    if n < 10 {
        out.push(0x30 + n as u8);
        assert(out@ =~= old(out)@ + decimal(n as nat));
    } else {
        put_decimal(out, n / 10);
        out.push(0x30 + (n % 10) as u8);
        assert(out@ =~= old(out)@ + decimal(n as nat));
    }
}

fn put_hex_digit(out: &mut Vec<u8>, d: u8)
    requires
        d < 16,
    ensures
        final(out)@ == old(out)@.push(hex_digit(d as nat)),
{
    if d < 10 {
        out.push(0x30 + d);
    } else {
        out.push(0x61 + (d - 10));
    }
}

/// Appends the hexadecimal digits of a number, padded with zeros to `width`.
pub fn put_hex_padded(out: &mut Vec<u8>, n: u64, width: u32)
    ensures
        final(out)@ == old(out)@ + hex_padded(n as nat, width as nat),
    decreases width,
{
    if width > 0 {
        put_hex_padded(out, n / 16, width - 1);
        put_hex_digit(out, (n % 16) as u8);
    }
    assert(out@ =~= old(out)@ + hex_padded(n as nat, width as nat));
}

/// Appends the hexadecimal digits of a number.
pub fn put_hex(out: &mut Vec<u8>, n: u64)
    ensures
        final(out)@ == old(out)@ + hex(n as nat),
    decreases n,
{
    if n >= 16 {
        put_hex(out, n / 16);
    }
    put_hex_digit(out, (n % 16) as u8);
    assert(out@ =~= old(out)@ + hex(n as nat));
}

/// Splits a string at the separators.
pub fn split_fields(s: &[u8], sep: u8) -> (fields: Vec<Vec<u8>>)
    ensures
        fields@.len() == split(s@, sep).len(),
        forall|i: int| 0 <= i < fields@.len() ==> #[trigger] fields@[i]@ == split(s@, sep)[i],
{
    let mut fields: Vec<Vec<u8>> = Vec::new();
    let mut field: Vec<u8> = Vec::new();
    let mut i: usize = 0;
    assert(s@.take(0) =~= Seq::<u8>::empty());
    while i < s.len()
        invariant
            i <= s@.len(),
            split(s@.take(i as int), sep).len() == fields@.len() + 1,
            forall|j: int|
                0 <= j < fields@.len() ==> #[trigger] fields@[j]@ == split(s@.take(i as int), sep)[j],
            field@ == split(s@.take(i as int), sep).last(),
        decreases s@.len() - i,
    {
        assert(s@.take(i + 1).drop_last() =~= s@.take(i as int));
        let c: u8 = s[i];
        if c == sep {
            fields.push(field);
            field = Vec::new();
        } else {
            field.push(c);
        }
        i = i + 1;
    }
    assert(s@.take(i as int) =~= s@);
    fields.push(field);
    fields
}

/// A number's decimal digits denote that number.
pub proof fn law_decimal_reads_back(n: nat)
    ensures
        number(decimal(n), 10) == Some(n),
        decimal(n).len() > 0,
        forall|i: int| 0 <= i < decimal(n).len() ==> 0x30 <= #[trigger] decimal(n)[i] <= 0x39,
    decreases n,
{
    let s = decimal(n);
    if n < 10 {
        assert(s.drop_last() =~= Seq::<u8>::empty());
        assert(digits_value(s.drop_last(), 10) == Some(0nat));
    } else {
        law_decimal_reads_back(n / 10);
        assert(s.drop_last() =~= decimal(n / 10));
        assert((n / 10) * 10 + n % 10 == n);
    }
}

/// A number's hexadecimal digits denote that number.
pub proof fn law_hex_reads_back(n: nat)
    ensures
        number(hex(n), 16) == Some(n),
        hex(n).len() > 0,
        forall|i: int| 0 <= i < hex(n).len() ==> is_lower_hex(#[trigger] hex(n)[i]),
    decreases n,
{
    let s = hex(n);
    if n < 16 {
        assert(s.drop_last() =~= Seq::<u8>::empty());
        assert(digits_value(s.drop_last(), 16) == Some(0nat));
    } else {
        law_hex_reads_back(n / 16);
        assert(s.drop_last() =~= hex(n / 16));
        assert((n / 16) * 16 + n % 16 == n);
    }
}

/// A hexadecimal digit in lower case.
pub open spec fn is_lower_hex(c: u8) -> bool {
    0x30 <= c <= 0x39 || 0x61 <= c <= 0x66
}

/// A number's padded hexadecimal digits denote that number, where the width suffices.
pub proof fn law_hex_padded_reads_back(n: nat, width: nat)
    requires
        n < pow16(width),
    ensures
        digits_value(hex_padded(n, width), 16) == Some(n),
        hex_padded(n, width).len() == width,
        forall|i: int| 0 <= i < width ==> #[trigger] hex_padded(n, width)[i] != 0x2d,
    decreases width,
{
    if width > 0 {
        law_hex_padded_reads_back(n / 16, (width - 1) as nat);
        let s = hex_padded(n, width);
        assert(s.drop_last() =~= hex_padded(n / 16, (width - 1) as nat));
        assert((n / 16) * 16 + n % 16 == n);
    }
}

} // verus!
