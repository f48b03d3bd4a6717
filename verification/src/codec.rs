//! Text utilities the token layer and the reports are built on: fixed-width
//! hexadecimal fields with proved round-trip and canonicity, literal matching
//! inside a string, and lexicographic comparison.

use vstd::prelude::*;

verus! {

/// Digit character of a nibble value.
pub open spec fn hex_char_of(d: int) -> char {
    if d == 0 {
        '0'
    } else if d == 1 {
        '1'
    } else if d == 2 {
        '2'
    } else if d == 3 {
        '3'
    } else if d == 4 {
        '4'
    } else if d == 5 {
        '5'
    } else if d == 6 {
        '6'
    } else if d == 7 {
        '7'
    } else if d == 8 {
        '8'
    } else if d == 9 {
        '9'
    } else if d == 10 {
        'a'
    } else if d == 11 {
        'b'
    } else if d == 12 {
        'c'
    } else if d == 13 {
        'd'
    } else if d == 14 {
        'e'
    } else {
        'f'
    }
}

/// Nibble value of a digit character, if it is one.
pub open spec fn hex_nibble_of(c: char) -> Option<u8> {
    if c == '0' {
        Some(0u8)
    } else if c == '1' {
        Some(1u8)
    } else if c == '2' {
        Some(2u8)
    } else if c == '3' {
        Some(3u8)
    } else if c == '4' {
        Some(4u8)
    } else if c == '5' {
        Some(5u8)
    } else if c == '6' {
        Some(6u8)
    } else if c == '7' {
        Some(7u8)
    } else if c == '8' {
        Some(8u8)
    } else if c == '9' {
        Some(9u8)
    } else if c == 'a' {
        Some(10u8)
    } else if c == 'b' {
        Some(11u8)
    } else if c == 'c' {
        Some(12u8)
    } else if c == 'd' {
        Some(13u8)
    } else if c == 'e' {
        Some(14u8)
    } else if c == 'f' {
        Some(15u8)
    } else {
        None
    }
}

/// The value `v`, written as exactly `width` hex digits (most significant
/// first); digits beyond the width are dropped.
pub open spec fn hex_seq(v: nat, width: nat) -> Seq<char>
    decreases width,
{
    if width == 0 {
        Seq::<char>::empty()
    } else {
        hex_seq(v / 16, (width - 1) as nat) + seq![hex_char_of((v % 16) as int)]
    }
}

/// Value of a sequence of hex digits; `None` if any character is not one.
pub open spec fn hex_value(s: Seq<char>) -> Option<nat>
    decreases s.len(),
{
    if s.len() == 0 {
        Some(0nat)
    } else {
        match (hex_value(s.drop_last()), hex_nibble_of(s.last())) {
            (Some(hi), Some(d)) => Some((hi * 16 + d) as nat),
            _ => None,
        }
    }
}

/// `16` to the power `w`.
pub open spec fn pow16(w: nat) -> nat
    decreases w,
{
    if w == 0 {
        1
    } else {
        16 * pow16((w - 1) as nat)
    }
}

pub proof fn lemma_hex_seq_len(v: nat, width: nat)
    ensures
        hex_seq(v, width).len() == width,
    decreases width,
{
    if width > 0 {
        lemma_hex_seq_len(v / 16, (width - 1) as nat);
    }
}

/// Reading back the digit written for a nibble yields the nibble.
proof fn lemma_nibble_round_trip(d: int)
    requires
        0 <= d < 16,
    ensures
        hex_nibble_of(hex_char_of(d)) == Some(d as u8),
{
}

/// Writing then reading a value below `16^width` is the identity.
pub proof fn lemma_hex_round_trip(v: nat, width: nat)
    requires
        v < pow16(width),
    ensures
        hex_value(hex_seq(v, width)) == Some(v),
    decreases width,
{
    if width == 0 {
        assert(hex_seq(v, 0) =~= Seq::<char>::empty());
    } else {
        let rest = hex_seq(v / 16, (width - 1) as nat);
        let s = rest + seq![hex_char_of((v % 16) as int)];
        assert(s.drop_last() =~= rest);
        assert(s.last() == hex_char_of((v % 16) as int));
        assert(v / 16 < pow16((width - 1) as nat)) by {
            assert(pow16(width) == 16 * pow16((width - 1) as nat));
        }
        lemma_hex_round_trip(v / 16, (width - 1) as nat);
        lemma_nibble_round_trip((v % 16) as int);
        assert(hex_value(s) == Some((v / 16) * 16 + (v % 16) as nat));
        assert((v / 16) * 16 + (v % 16) as nat == v) by (nonlinear_arith);
    }
}

/// A digit sequence is bounded by `16^len`, and it is the canonical spelling
/// of its value: parsing pins the text down exactly.
pub proof fn lemma_hex_canonical(s: Seq<char>, n: nat)
    requires
        hex_value(s) == Some(n),
    ensures
        n < pow16(s.len()),
        s =~= hex_seq(n, s.len()),
    decreases s.len(),
{
    if s.len() == 0 {
        assert(pow16(0) == 1);
    } else {
        let hi = hex_value(s.drop_last());
        let d = hex_nibble_of(s.last());
        let hiv = hi.unwrap();
        let dv = d.unwrap();
        lemma_hex_canonical(s.drop_last(), hiv);
        assert(n == hiv * 16 + dv);
        assert(pow16(s.len()) == 16 * pow16((s.len() - 1) as nat));
        assert(hiv * 16 + dv < 16 * pow16((s.len() - 1) as nat)) by (nonlinear_arith)
            requires
                hiv < pow16((s.len() - 1) as nat),
                dv < 16,
        {
        }
        assert(n / 16 == hiv && n % 16 == dv) by (nonlinear_arith)
            requires
                n == hiv * 16 + dv,
                0 <= dv < 16,
                hiv >= 0,
        {
        }
        assert(hex_nibble_of(s.last()) == Some(dv));
        assert(dv < 16);
        assert(hex_char_of(dv as int) == s.last());
        assert(hex_seq(n, s.len()) =~= hex_seq(hiv, (s.len() - 1) as nat) + seq![
            hex_char_of(dv as int),
        ]);
        assert(s =~= s.drop_last() + seq![s.last()]);
    }
}

/// Digit character for a nibble.
fn hex_digit_str(d: u8) -> (r: &'static str)
    requires
        d < 16,
    ensures
        r@ =~= seq![hex_char_of(d as int)],
{
    proof {
        reveal_strlit("0");
        reveal_strlit("1");
        reveal_strlit("2");
        reveal_strlit("3");
        reveal_strlit("4");
        reveal_strlit("5");
        reveal_strlit("6");
        reveal_strlit("7");
        reveal_strlit("8");
        reveal_strlit("9");
        reveal_strlit("a");
        reveal_strlit("b");
        reveal_strlit("c");
        reveal_strlit("d");
        reveal_strlit("e");
        reveal_strlit("f");
    }
    match d {
        0 => "0",
        1 => "1",
        2 => "2",
        3 => "3",
        4 => "4",
        5 => "5",
        6 => "6",
        7 => "7",
        8 => "8",
        9 => "9",
        10 => "a",
        11 => "b",
        12 => "c",
        13 => "d",
        14 => "e",
        _ => "f",
    }
}

/// Appends `v` as exactly `width` hex digits.
pub fn append_hex(out: &mut String, v: u128, width: usize)
    requires
        (v as nat) < pow16(width as nat),
    ensures
        final(out)@ == old(out)@ + hex_seq(v as nat, width as nat),
    decreases width,
{
    if width == 0 {
        assert(old(out)@ + hex_seq(v as nat, 0) =~= old(out)@);
    } else {
        proof {
            assert(pow16(width as nat) == 16 * pow16((width - 1) as nat));
            assert((v as nat) / 16 < pow16((width - 1) as nat));
            assert((v as nat) / 16 == (v / 16) as nat);
        }
        append_hex(out, v / 16, width - 1);
        let d: u8 = (v % 16) as u8;
        out.append(hex_digit_str(d));
        proof {
            assert((v % 16) as nat == (v as nat) % 16);
            assert(old(out)@ + hex_seq((v / 16) as nat, (width - 1) as nat) + seq![
                hex_char_of(d as int),
            ] =~= old(out)@ + hex_seq(v as nat, width as nat));
        }
    }
}

/// Nibble of a digit character.
fn hex_nibble(c: char) -> (r: Option<u8>)
    ensures
        r == hex_nibble_of(c),
{
    match c {
        '0' => Some(0),
        '1' => Some(1),
        '2' => Some(2),
        '3' => Some(3),
        '4' => Some(4),
        '5' => Some(5),
        '6' => Some(6),
        '7' => Some(7),
        '8' => Some(8),
        '9' => Some(9),
        'a' => Some(10),
        'b' => Some(11),
        'c' => Some(12),
        'd' => Some(13),
        'e' => Some(14),
        'f' => Some(15),
        _ => None,
    }
}

/// Reads the `width` hex digits of `s` starting at `from`.
pub fn parse_hex(s: &str, from: usize, width: usize) -> (r: Option<u128>)
    requires
        from + width <= s@.len(),
        width <= 32,
    ensures
        match r {
            Some(v) => hex_value(s@.subrange(from as int, (from + width) as int)) == Some(
                v as nat,
            ),
            None => hex_value(s@.subrange(from as int, (from + width) as int)) is None,
        },
{
    let ghost whole = s@.subrange(from as int, (from + width) as int);
    let sn = s.unicode_len();
    let mut acc: u128 = 0;
    let mut i: usize = 0;
    proof {
        assert(whole.subrange(0, 0) =~= Seq::<char>::empty());
        assert(pow16(0) == 1);
    }
    while i < width
        invariant
            0 <= i <= width,
            width <= 32,
            from + width <= s@.len(),
            sn == s@.len(),
            whole == s@.subrange(from as int, (from + width) as int),
            hex_value(whole.subrange(0, i as int)) == Some(acc as nat),
            (acc as nat) < pow16(i as nat),
        decreases width - i,
    {
        let c = s.get_char(from + i);
        assert(c == whole[i as int]);
        match hex_nibble(c) {
            None => {
                proof {
                    lemma_hex_prefix_none(whole, i as int);
                }
                return None;
            },
            Some(d) => {
                proof {
                    assert(pow16((i + 1) as nat) == 16 * pow16(i as nat));
                    lemma_pow16_le_u128(i as nat + 1);
                    assert(16 * (acc as nat) + 16 <= 16 * pow16(i as nat)) by (nonlinear_arith)
                        requires
                            (acc as nat) < pow16(i as nat),
                    {
                    }
                }
                let next: u128 = acc * 16 + (d as u128);
                proof {
                    let pfx = whole.subrange(0, (i + 1) as int);
                    assert(pfx.drop_last() =~= whole.subrange(0, i as int));
                    assert(pfx.last() == whole[i as int]);
                    assert(hex_value(pfx) == Some((acc as nat) * 16 + d as nat));
                }
                acc = next;
                i = i + 1;
            },
        }
    }
    proof {
        assert(whole.subrange(0, width as int) =~= whole);
    }
    Some(acc)
}

/// If a digit is bad, the whole run has no value.
proof fn lemma_hex_prefix_none(s: Seq<char>, i: int)
    requires
        0 <= i < s.len(),
        hex_nibble_of(s[i]) is None,
    ensures
        hex_value(s) is None,
    decreases s.len(),
{
    if i == s.len() - 1 {
    } else {
        assert(s.drop_last()[i] == s[i]);
        lemma_hex_prefix_none(s.drop_last(), i);
    }
}

/// `16^w` fits in the 128-bit range while `w <= 32`.
pub proof fn lemma_pow16_le_u128(w: nat)
    requires
        w <= 32,
    ensures
        pow16(w) <= 0x1_0000_0000_0000_0000_0000_0000_0000_0000,
    decreases 32 - w,
{
    if w == 32 {
        assert(pow16(32) == 0x1_0000_0000_0000_0000_0000_0000_0000_0000) by {
            reveal_with_fuel(pow16, 33);
        }
    } else {
        lemma_pow16_le_u128(w + 1);
        assert(pow16(w + 1) == 16 * pow16(w));
    }
}

/// True exactly when `lit` occurs in `s` at position `from`.
pub fn str_matches_at(s: &str, from: usize, lit: &str) -> (r: bool)
    requires
        from <= s@.len(),
    ensures
        r <==> (from + lit@.len() <= s@.len() && s@.subrange(
            from as int,
            from as int + lit@.len(),
        ) =~= lit@),
{
    let n = lit.unicode_len();
    let sn = s.unicode_len();
    if n > sn - from {
        return false;
    }
    let mut i: usize = 0;
    while i < n
        invariant
            0 <= i <= n,
            n == lit@.len(),
            sn == s@.len(),
            from + n <= s@.len(),
            forall|j: int| 0 <= j < i ==> s@[from + j] == lit@[j],
        decreases n - i,
    {
        if s.get_char(from + i) != lit.get_char(i) {
            return false;
        }
        i = i + 1;
    }
    proof {
        assert(s@.subrange(from as int, from as int + lit@.len()) =~= lit@);
    }
    true
}

} // verus!
