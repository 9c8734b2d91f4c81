//! Colour channels written as `#rrggbb` / `#rrggbbaa` hexadecimal text.
use vstd::prelude::*;
use vstd::utf8::*;

verus! {

/// Value of one hexadecimal digit byte (`0-9`, `a-f`, `A-F`), as a base-16 parser reads it.
pub open spec fn hex_digit_value(b: u8) -> Option<u8> {
    if 0x30 <= b <= 0x39 {
        Some((b - 0x30) as u8)
    } else if 0x61 <= b <= 0x66 {
        Some((b - 0x61 + 10) as u8)
    } else if 0x41 <= b <= 0x46 {
        Some((b - 0x41 + 10) as u8)
    } else {
        None
    }
}

/// What parsing the two bytes `b0 b1` as an unsigned base-16 number gives:
/// an optional leading `+` followed by one digit, or two digits.
pub open spec fn pair_value(b0: u8, b1: u8) -> Option<u8> {
    if b0 == 0x2b {
        hex_digit_value(b1)
    } else {
        match (hex_digit_value(b0), hex_digit_value(b1)) {
            (Some(hi), Some(lo)) => Some((hi * 16 + lo) as u8),
            _ => None,
        }
    }
}

fn digit_value(b: u8) -> (r: Option<u8>)
    ensures
        r == hex_digit_value(b),
{
    if 0x30 <= b && b <= 0x39 {
        Some(b - 0x30)
    } else if 0x61 <= b && b <= 0x66 {
        Some(b - 0x61 + 10)
    } else if 0x41 <= b && b <= 0x46 {
        Some(b - 0x41 + 10)
    } else {
        None
    }
}

/// Parses two bytes as an unsigned base-16 number.
pub fn parse_pair(b0: u8, b1: u8) -> (r: Option<u8>)
    ensures
        r == pair_value(b0, b1),
{
    if b0 == 0x2b {
        digit_value(b1)
    } else {
        match (digit_value(b0), digit_value(b1)) {
            (Some(hi), Some(lo)) => Some(hi * 16 + lo),
            _ => None,
        }
    }
}


/// The bytes left once every leading `#` (byte 0x23) is removed.
pub open spec fn strip_hashes(b: Seq<u8>) -> Seq<u8>
    decreases b.len(),
{
    if b.len() > 0 && b[0] == 0x23 {
        strip_hashes(b.drop_first())
    } else {
        b
    }
}

/// A UTF-8 continuation byte: one that does not start a character.
pub open spec fn is_continuation(b: u8) -> bool {
    0x80 <= b < 0xc0
}

/// The channel that the bytes `h[i]`, `h[i + 1]` give, or `default` when they are no number.
pub open spec fn channel_or(h: Seq<u8>, i: int, default: u8) -> u8 {
    match pair_value(h[i], h[i + 1]) {
        Some(v) => v,
        None => default,
    }
}

/// The colour that hexadecimal digits `h` (the `#` already removed) denote:
/// six digits give an opaque colour, eight give one with alpha; a digit pair
/// that is no number counts as 0 (alpha: 255), and any other length gives opaque black.
pub open spec fn rgba_of_hex_digits(h: Seq<u8>) -> (u8, u8, u8, u8) {
    if h.len() == 6 {
        (channel_or(h, 0, 0), channel_or(h, 2, 0), channel_or(h, 4, 0), 255)
    } else if h.len() == 8 {
        (channel_or(h, 0, 0), channel_or(h, 2, 0), channel_or(h, 4, 0), channel_or(h, 6, 255))
    } else {
        (0, 0, 0, 255)
    }
}

/// The digit pairs of `h` start on character boundaries, so that cutting the
/// text into pairs is possible.
pub open spec fn pairs_on_char_boundaries(h: Seq<u8>) -> bool {
    &&& h.len() == 6 ==> !is_continuation(h[2]) && !is_continuation(h[4])
    &&& h.len() == 8 ==> !is_continuation(h[2]) && !is_continuation(h[4]) && !is_continuation(h[6])
}

proof fn lemma_strip_hashes_step(b: Seq<u8>, i: int)
    requires
        0 <= i < b.len(),
        b[i] == 0x23,
    ensures
        strip_hashes(b.subrange(i, b.len() as int)) == strip_hashes(b.subrange(i + 1, b.len() as int)),
{
    let s = b.subrange(i, b.len() as int);
    assert(s.drop_first() =~= b.subrange(i + 1, b.len() as int));
}

/// Finds the hexadecimal digits of `bytes`: the index after the leading `#` bytes.
pub fn skip_hashes(bytes: &[u8]) -> (start: usize)
    ensures
        start <= bytes@.len(),
        bytes@.subrange(start as int, bytes@.len() as int) == strip_hashes(bytes@),
{
    let mut i: usize = 0;
    assert(bytes@.subrange(0, bytes@.len() as int) =~= bytes@);
    while i < bytes.len() && bytes[i] == 0x23
        invariant
            i <= bytes@.len(),
            strip_hashes(bytes@.subrange(i as int, bytes@.len() as int)) == strip_hashes(bytes@),
        decreases bytes@.len() - i,
    {
        proof {
            lemma_strip_hashes_step(bytes@, i as int);
        }
        i = i + 1;
    }
    proof {
        let rest = bytes@.subrange(i as int, bytes@.len() as int);
        if rest.len() > 0 {
            assert(rest[0] == bytes@[i as int]);
        }
    }
    i
}

fn channel_at(h: &[u8], i: usize, default: u8) -> (r: u8)
    requires
        i + 1 < h@.len(),
    ensures
        r == channel_or(h@, i as int, default),
{
    match parse_pair(h[i], h[i + 1]) {
        Some(v) => v,
        None => default,
    }
}

/// Reads a colour from its hexadecimal digits.
pub fn rgba_from_digits(bytes: &[u8], start: usize) -> (r: (u8, u8, u8, u8))
    requires
        start <= bytes@.len(),
    ensures
        r == rgba_of_hex_digits(bytes@.subrange(start as int, bytes@.len() as int)),
{
    let ghost h = bytes@.subrange(start as int, bytes@.len() as int);
    let n = bytes.len() - start;
    if n == 6 {
        let r = channel_at(bytes, start, 0);
        let g = channel_at(bytes, start + 2, 0);
        let b = channel_at(bytes, start + 4, 0);
        assert(h[0] == bytes@[start as int] && h[1] == bytes@[start + 1]);
        assert(h[2] == bytes@[start + 2] && h[3] == bytes@[start + 3]);
        assert(h[4] == bytes@[start + 4] && h[5] == bytes@[start + 5]);
        (r, g, b, 255)
    } else if n == 8 {
        let r = channel_at(bytes, start, 0);
        let g = channel_at(bytes, start + 2, 0);
        let b = channel_at(bytes, start + 4, 0);
        let a = channel_at(bytes, start + 6, 255);
        assert(h[0] == bytes@[start as int] && h[1] == bytes@[start + 1]);
        assert(h[2] == bytes@[start + 2] && h[3] == bytes@[start + 3]);
        assert(h[4] == bytes@[start + 4] && h[5] == bytes@[start + 5]);
        assert(h[6] == bytes@[start + 6] && h[7] == bytes@[start + 7]);
        (r, g, b, a)
    } else {
        (0, 0, 0, 255)
    }
}

/// Lower-case hexadecimal digit character of `d` (below 16).
pub open spec fn hex_char(d: u8) -> char {
    if d < 10 {
        ((0x30 + d) as u32) as char
    } else {
        ((0x57 + d) as u32) as char
    }
}

/// Two lower-case hexadecimal digits of a byte, high digit first.
pub open spec fn byte_hex(x: u8) -> Seq<char> {
    seq![hex_char(x / 16), hex_char(x % 16)]
}

/// `#rrggbbaa` text of a colour, each channel as two lower-case digits.
pub open spec fn hex_text(c: (u8, u8, u8, u8)) -> Seq<char> {
    seq!['#'] + byte_hex(c.0) + byte_hex(c.1) + byte_hex(c.2) + byte_hex(c.3)
}

/// Lower-case hexadecimal text of `n`, without leading zeros ("0" for zero).
pub open spec fn lower_hex(n: nat) -> Seq<char>
    decreases n,
{
    if n < 16 {
        seq![hex_char(n as u8)]
    } else {
        lower_hex(n / 16) + seq![hex_char((n % 16) as u8)]
    }
}


/// One-character text of the lower-case hexadecimal digit `d`.
fn digit_text(d: u8) -> (s: &'static str)
    requires
        d < 16,
    ensures
        s@ == seq![hex_char(d)],
{
    if d == 0 {
        proof {
            reveal_strlit("0");
        }
        "0"
    } else if d == 1 {
        proof {
            reveal_strlit("1");
        }
        "1"
    } else if d == 2 {
        proof {
            reveal_strlit("2");
        }
        "2"
    } else if d == 3 {
        proof {
            reveal_strlit("3");
        }
        "3"
    } else if d == 4 {
        proof {
            reveal_strlit("4");
        }
        "4"
    } else if d == 5 {
        proof {
            reveal_strlit("5");
        }
        "5"
    } else if d == 6 {
        proof {
            reveal_strlit("6");
        }
        "6"
    } else if d == 7 {
        proof {
            reveal_strlit("7");
        }
        "7"
    } else if d == 8 {
        proof {
            reveal_strlit("8");
        }
        "8"
    } else if d == 9 {
        proof {
            reveal_strlit("9");
        }
        "9"
    } else if d == 10 {
        proof {
            reveal_strlit("a");
        }
        "a"
    } else if d == 11 {
        proof {
            reveal_strlit("b");
        }
        "b"
    } else if d == 12 {
        proof {
            reveal_strlit("c");
        }
        "c"
    } else if d == 13 {
        proof {
            reveal_strlit("d");
        }
        "d"
    } else if d == 14 {
        proof {
            reveal_strlit("e");
        }
        "e"
    } else if d == 15 {
        proof {
            reveal_strlit("f");
        }
        "f"
    } else {
        proof {
            reveal_strlit("f");
        }
        "f"
    }
}

/// Appends the two lower-case hexadecimal digits of `x`.
pub fn push_byte_hex(out: &mut String, x: u8)
    ensures
        final(out)@ == old(out)@ + byte_hex(x),
{
    out.append(digit_text(x / 16));
    out.append(digit_text(x % 16));
    assert(final(out)@ =~= old(out)@ + byte_hex(x));
}

/// Appends the lower-case hexadecimal text of `n`, without leading zeros.
pub fn push_lower_hex(out: &mut String, n: u128)
    ensures
        final(out)@ == old(out)@ + lower_hex(n as nat),
    decreases n,
{
    if n >= 16 {
        push_lower_hex(out, n / 16);
    }
    out.append(digit_text((n % 16) as u8));
    assert(final(out)@ =~= old(out)@ + lower_hex(n as nat));
}


proof fn lemma_digit_round_trip(d: u8)
    requires
        d < 16,
    ensures
        hex_digit_value(hex_char(d) as u8) == Some(d),
        hex_char(d) as u8 != 0x2b,
        hex_char(d) as u8 != 0x23,
        !is_continuation(hex_char(d) as u8),
        '\0' <= hex_char(d) <= '\u{7f}',
{
}

proof fn lemma_byte_round_trip(x: u8)
    ensures
        pair_value(hex_char(x / 16) as u8, hex_char(x % 16) as u8) == Some(x),
{
    lemma_digit_round_trip(x / 16);
    lemma_digit_round_trip(x % 16);
}

/// Writing a colour as `#rrggbbaa` text and reading that text back gives the
/// same colour; the text can always be cut into digit pairs.
pub proof fn lemma_hex_round_trip(c: (u8, u8, u8, u8))
    ensures
        pairs_on_char_boundaries(strip_hashes(encode_utf8(hex_text(c)))),
        rgba_of_hex_digits(strip_hashes(encode_utf8(hex_text(c)))) == c,
{
    let t = hex_text(c);
    lemma_digit_round_trip(c.0 / 16);
    lemma_digit_round_trip(c.0 % 16);
    lemma_digit_round_trip(c.1 / 16);
    lemma_digit_round_trip(c.1 % 16);
    lemma_digit_round_trip(c.2 / 16);
    lemma_digit_round_trip(c.2 % 16);
    lemma_digit_round_trip(c.3 / 16);
    lemma_digit_round_trip(c.3 % 16);
    assert(t.len() == 9);
    assert(is_ascii_chars(t));
    is_ascii_chars_encode_utf8(t);
    let b = encode_utf8(t);
    assert(b[0] == 0x23);
    let h = b.drop_first();
    assert(h[0] != 0x23);
    assert(strip_hashes(h) == h);
    assert(strip_hashes(b) == h);
    lemma_byte_round_trip(c.0);
    lemma_byte_round_trip(c.1);
    lemma_byte_round_trip(c.2);
    lemma_byte_round_trip(c.3);
    assert(h[0] == t[1] as u8 && h[1] == t[2] as u8);
    assert(h[2] == t[3] as u8 && h[3] == t[4] as u8);
    assert(h[4] == t[5] as u8 && h[5] == t[6] as u8);
    assert(h[6] == t[7] as u8 && h[7] == t[8] as u8);
}


/// The lower-case hexadecimal digits, in order of value.
pub open spec fn lower_digits() -> Seq<char> {
    seq!['0', '1', '2', '3', '4', '5', '6', '7', '8', '9', 'a', 'b', 'c', 'd', 'e', 'f']
}

/// The upper-case hexadecimal digits, in order of value.
pub open spec fn upper_digits() -> Seq<char> {
    seq!['0', '1', '2', '3', '4', '5', '6', '7', '8', '9', 'A', 'B', 'C', 'D', 'E', 'F']
}

/// Every digit has its standard value: the digit written for `d` is the
/// `d`-th of `0123456789abcdef`, and reading that digit, or the `d`-th of
/// `0123456789ABCDEF`, gives `d` back.
pub proof fn lemma_digits_standard(d: u8)
    requires
        d < 16,
    ensures
        hex_char(d) == lower_digits()[d as int],
        hex_digit_value(lower_digits()[d as int] as u8) == Some(d),
        hex_digit_value(upper_digits()[d as int] as u8) == Some(d),
{
    let lo = lower_digits();
    let up = upper_digits();
    assert(lo[0] == '0' && lo[1] == '1' && lo[2] == '2' && lo[3] == '3');
    assert(lo[4] == '4' && lo[5] == '5' && lo[6] == '6' && lo[7] == '7');
    assert(lo[8] == '8' && lo[9] == '9' && lo[10] == 'a' && lo[11] == 'b');
    assert(lo[12] == 'c' && lo[13] == 'd' && lo[14] == 'e' && lo[15] == 'f');
    assert(up[0] == '0' && up[1] == '1' && up[2] == '2' && up[3] == '3');
    assert(up[4] == '4' && up[5] == '5' && up[6] == '6' && up[7] == '7');
    assert(up[8] == '8' && up[9] == '9' && up[10] == 'A' && up[11] == 'B');
    assert(up[12] == 'C' && up[13] == 'D' && up[14] == 'E' && up[15] == 'F');
}

/// Only the sixteen digits of either case are read as digits.
pub proof fn lemma_only_digits_read(b: u8)
    ensures
        hex_digit_value(b) is Some <==> exists|d: int|
            0 <= d < 16 && (b == lower_digits()[d] as u8 || b == upper_digits()[d] as u8),
{
    if hex_digit_value(b) is Some {
        let d = hex_digit_value(b)->0;
        lemma_digits_standard(d);
        assert(b == lower_digits()[d as int] as u8 || b == upper_digits()[d as int] as u8);
    }
    if exists|d: int| 0 <= d < 16 && (b == lower_digits()[d] as u8 || b == upper_digits()[d] as u8) {
        let d = choose|d: int|
            0 <= d < 16 && (b == lower_digits()[d] as u8 || b == upper_digits()[d] as u8);
        lemma_digits_standard(d as u8);
    }
}

/// Two digits of either case are read as the number `high * 16 + low`.
pub proof fn lemma_pair_standard(hi: u8, lo: u8)
    requires
        hi < 16,
        lo < 16,
    ensures
        pair_value(lower_digits()[hi as int] as u8, lower_digits()[lo as int] as u8) == Some(
            (hi * 16 + lo) as u8,
        ),
        pair_value(upper_digits()[hi as int] as u8, upper_digits()[lo as int] as u8) == Some(
            (hi * 16 + lo) as u8,
        ),
        hi * 16 + lo < 256,
{
    lemma_digits_standard(hi);
    lemma_digits_standard(lo);
}

/// Whether `c` is one of the lower-case hexadecimal digits.
pub open spec fn is_lower_digit(c: char) -> bool {
    ('0' <= c && c <= '9') || ('a' <= c && c <= 'f')
}

/// The standard value of a lower-case hexadecimal digit.
pub open spec fn lower_digit_value(c: char) -> int {
    if '0' <= c && c <= '9' {
        (c as u32) as int - ('0' as u32) as int
    } else {
        (c as u32) as int - ('a' as u32) as int + 10
    }
}

/// The number that the digits `s` spell in base 16, most significant first.
pub open spec fn base16_value(s: Seq<char>) -> int
    decreases s.len(),
{
    if s.len() == 0 {
        0
    } else {
        base16_value(s.drop_last()) * 16 + lower_digit_value(s.last())
    }
}

proof fn lemma_hex_char_standard(d: u8)
    requires
        d < 16,
    ensures
        is_lower_digit(hex_char(d)),
        lower_digit_value(hex_char(d)) == d,
        hex_char(d) == '0' <==> d == 0,
{
    lemma_digits_standard(d);
    let lo = lower_digits();
    assert(lo[0] == '0' && lo[1] == '1' && lo[2] == '2' && lo[3] == '3');
    assert(lo[4] == '4' && lo[5] == '5' && lo[6] == '6' && lo[7] == '7');
    assert(lo[8] == '8' && lo[9] == '9' && lo[10] == 'a' && lo[11] == 'b');
    assert(lo[12] == 'c' && lo[13] == 'd' && lo[14] == 'e' && lo[15] == 'f');
}

/// The text written for `n` is its exact base-16 numeral: lower-case digits
/// only, read back most significant first they give `n`, and no zero leads
/// unless `n` is a single digit.
pub proof fn lemma_lower_hex_exact(n: nat)
    ensures
        lower_hex(n).len() >= 1,
        forall|i: int| 0 <= i < lower_hex(n).len() ==> is_lower_digit(#[trigger] lower_hex(n)[i]),
        base16_value(lower_hex(n)) == n,
        lower_hex(n).len() > 1 ==> lower_hex(n)[0] != '0',
        n < 16 <==> lower_hex(n).len() == 1,
    decreases n,
{
    if n < 16 {
        lemma_hex_char_standard(n as u8);
        let s = lower_hex(n);
        assert(s.drop_last() =~= Seq::<char>::empty());
        assert(base16_value(s.drop_last()) == 0);
        assert(s.last() == hex_char(n as u8));
        assert(base16_value(s) == lower_digit_value(s.last()));
    } else {
        lemma_lower_hex_exact(n / 16);
        lemma_hex_char_standard((n % 16) as u8);
        let s = lower_hex(n);
        let h = lower_hex(n / 16);
        assert(s.drop_last() =~= h);
        assert(s.last() == hex_char((n % 16) as u8));
        assert(base16_value(s) == base16_value(h) * 16 + (n % 16) as int);
        assert((n / 16) * 16 + n % 16 == n) by (nonlinear_arith);
        assert(s[0] == h[0]);
        assert forall|i: int| 0 <= i < s.len() implies is_lower_digit(#[trigger] s[i]) by {
            if i < h.len() {
                assert(s[i] == h[i]);
            }
        }
        if h.len() == 1 {
            assert(n / 16 >= 1);
            lemma_hex_char_standard((n / 16) as u8);
        }
    }
}

/// Distinct numbers are written as distinct texts.
pub proof fn lemma_lower_hex_injective(a: nat, b: nat)
    requires
        a != b,
    ensures
        lower_hex(a) != lower_hex(b),
{
    lemma_lower_hex_exact(a);
    lemma_lower_hex_exact(b);
}


/// The bytes of the hexadecimal digits of values `d`, in lower or upper case.
pub open spec fn digit_bytes(d: Seq<u8>, upper: bool) -> Seq<u8> {
    Seq::new(
        d.len(),
        |i: int|
            if upper {
                upper_digits()[d[i] as int] as u8
            } else {
                lower_digits()[d[i] as int] as u8
            },
    )
}

/// Six or eight digits, of either case, are read pair by pair as the red,
/// green, blue and (for eight) alpha channels, in that order; six digits give
/// full alpha.
pub proof fn lemma_channels_in_order(d: Seq<u8>, upper: bool)
    requires
        d.len() == 6 || d.len() == 8,
        forall|i: int| 0 <= i < d.len() ==> #[trigger] d[i] < 16,
    ensures
        rgba_of_hex_digits(digit_bytes(d, upper)) == (
            (d[0] * 16 + d[1]) as u8,
            (d[2] * 16 + d[3]) as u8,
            (d[4] * 16 + d[5]) as u8,
            if d.len() == 8 {
                (d[6] * 16 + d[7]) as u8
            } else {
                255u8
            },
        ),
{
    let h = digit_bytes(d, upper);
    lemma_pair_standard(d[0], d[1]);
    lemma_pair_standard(d[2], d[3]);
    lemma_pair_standard(d[4], d[5]);
    if d.len() == 8 {
        lemma_pair_standard(d[6], d[7]);
    }
}

/// The text of a colour is `#` and then, for red, green, blue and alpha in
/// that order, the digit of the high half of the channel and that of its low half.
pub proof fn lemma_hex_text_spelled(c: (u8, u8, u8, u8))
    ensures
        ({
            let l = lower_digits();
            hex_text(c) == seq![
                '#',
                l[(c.0 / 16) as int], l[(c.0 % 16) as int],
                l[(c.1 / 16) as int], l[(c.1 % 16) as int],
                l[(c.2 / 16) as int], l[(c.2 % 16) as int],
                l[(c.3 / 16) as int], l[(c.3 % 16) as int],
            ]
        }),
{
    lemma_digits_standard(c.0 / 16);
    lemma_digits_standard(c.0 % 16);
    lemma_digits_standard(c.1 / 16);
    lemma_digits_standard(c.1 % 16);
    lemma_digits_standard(c.2 / 16);
    lemma_digits_standard(c.2 % 16);
    lemma_digits_standard(c.3 / 16);
    lemma_digits_standard(c.3 % 16);
    let l = lower_digits();
    assert(hex_text(c) =~= seq![
        '#',
        l[(c.0 / 16) as int], l[(c.0 % 16) as int],
        l[(c.1 / 16) as int], l[(c.1 % 16) as int],
        l[(c.2 / 16) as int], l[(c.2 % 16) as int],
        l[(c.3 / 16) as int], l[(c.3 % 16) as int],
    ]);
}

} // verus!
