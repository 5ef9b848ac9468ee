//! A lowercase hexadecimal text form for byte strings.
//!
//! Identifiers (node, document, author) and the payload of a capability
//! ticket are rendered as text through this codec. Encoding and decoding
//! are verified inverses, so every identifier string is exactly
//! reversible and injective in the bytes it came from.

use vstd::prelude::*;

verus! {

/// The lowercase hexadecimal digit for a nibble.
pub open spec fn nibble_char(n: u8) -> char {
    if n == 0 {
        '0'
    } else if n == 1 {
        '1'
    } else if n == 2 {
        '2'
    } else if n == 3 {
        '3'
    } else if n == 4 {
        '4'
    } else if n == 5 {
        '5'
    } else if n == 6 {
        '6'
    } else if n == 7 {
        '7'
    } else if n == 8 {
        '8'
    } else if n == 9 {
        '9'
    } else if n == 10 {
        'a'
    } else if n == 11 {
        'b'
    } else if n == 12 {
        'c'
    } else if n == 13 {
        'd'
    } else if n == 14 {
        'e'
    } else {
        'f'
    }
}

/// True of the sixteen lowercase hexadecimal digits.
pub open spec fn is_hex_char(c: char) -> bool {
    c == '0' || c == '1' || c == '2' || c == '3' || c == '4' || c == '5' || c == '6' || c == '7'
        || c == '8' || c == '9' || c == 'a' || c == 'b' || c == 'c' || c == 'd' || c == 'e'
        || c == 'f'
}

/// The nibble a lowercase hexadecimal digit stands for.
pub open spec fn nibble_val(c: char) -> u8 {
    if c == '0' {
        0
    } else if c == '1' {
        1
    } else if c == '2' {
        2
    } else if c == '3' {
        3
    } else if c == '4' {
        4
    } else if c == '5' {
        5
    } else if c == '6' {
        6
    } else if c == '7' {
        7
    } else if c == '8' {
        8
    } else if c == '9' {
        9
    } else if c == 'a' {
        10
    } else if c == 'b' {
        11
    } else if c == 'c' {
        12
    } else if c == 'd' {
        13
    } else if c == 'e' {
        14
    } else {
        15
    }
}

/// The hexadecimal rendering of a byte string: two digits per byte,
/// high nibble first.
pub open spec fn hex_of(b: Seq<u8>) -> Seq<char> {
    Seq::new(
        b.len() * 2,
        |i: int|
            if i % 2 == 0 {
                nibble_char((b[i / 2] / 16) as u8)
            } else {
                nibble_char((b[i / 2] % 16) as u8)
            },
    )
}

/// True when a character sequence is a well-formed hexadecimal rendering:
/// even length, lowercase hexadecimal digits throughout.
pub open spec fn hex_shaped(s: Seq<char>) -> bool {
    s.len() % 2 == 0 && (forall|i: int| 0 <= i < s.len() ==> is_hex_char(#[trigger] s[i]))
}

/// The byte string a hexadecimal rendering stands for.
pub open spec fn unhex(s: Seq<char>) -> Seq<u8> {
    Seq::new(
        s.len() / 2,
        |i: int| (nibble_val(s[2 * i]) * 16 + nibble_val(s[2 * i + 1])) as u8,
    )
}

/// Reading a digit back gives the nibble it was written from.
proof fn lemma_nibble_round_trip(n: u8)
    requires
        n < 16,
    ensures
        is_hex_char(nibble_char(n)),
        nibble_val(nibble_char(n)) == n,
{
}

/// Decoding is a left inverse of encoding: every byte string survives
/// the round trip through its hexadecimal rendering.
pub proof fn lemma_hex_round_trip(b: Seq<u8>)
    ensures
        hex_shaped(hex_of(b)),
        unhex(hex_of(b)) == b,
{
    let s = hex_of(b);
    assert forall|i: int| 0 <= i < s.len() implies is_hex_char(#[trigger] s[i]) by {
        let x = b[i / 2];
        assert(x / 16 < 16 && x % 16 < 16);
        if i % 2 == 0 {
            lemma_nibble_round_trip((x / 16) as u8);
        } else {
            lemma_nibble_round_trip((x % 16) as u8);
        }
    }
    assert forall|i: int| 0 <= i < b.len() implies unhex(s)[i] == b[i] by {
        let x = b[i];
        assert((2 * i) % 2 == 0 && (2 * i) / 2 == i);
        assert((2 * i + 1) % 2 == 1 && (2 * i + 1) / 2 == i);
        assert(s[2 * i] == nibble_char((x / 16) as u8));
        assert(s[2 * i + 1] == nibble_char((x % 16) as u8));
        lemma_nibble_round_trip((x / 16) as u8);
        lemma_nibble_round_trip((x % 16) as u8);
        assert(x / 16 * 16 + x % 16 == x) by (nonlinear_arith);
    }
    assert(unhex(s) =~= b);
}

/// Two byte strings with the same hexadecimal rendering are the same.
pub proof fn lemma_hex_injective(a: Seq<u8>, b: Seq<u8>)
    requires
        hex_of(a) == hex_of(b),
    ensures
        a == b,
{
    lemma_hex_round_trip(a);
    lemma_hex_round_trip(b);
}

/// Appends the digit for one nibble to a string.
fn push_nibble(out: &mut String, n: u8)
    requires
        n < 16,
    ensures
        final(out)@ == old(out)@ + seq![nibble_char(n)],
{
    proof {
        reveal_strlit("0");
        reveal_strlit("1");
        reveal_strlit("2");
        reveal_strlit("3");
        reveal_strlit("4");
        reveal_strlit("5");
        reveal_strlit("6");
        reveal_strlit("7");
        reveal_strlit("8");
        reveal_strlit("9");
        reveal_strlit("a");
        reveal_strlit("b");
        reveal_strlit("c");
        reveal_strlit("d");
        reveal_strlit("e");
        reveal_strlit("f");
    }
    if n == 0 {
        out.append("0");
    } else if n == 1 {
        out.append("1");
    } else if n == 2 {
        out.append("2");
    } else if n == 3 {
        out.append("3");
    } else if n == 4 {
        out.append("4");
    } else if n == 5 {
        out.append("5");
    } else if n == 6 {
        out.append("6");
    } else if n == 7 {
        out.append("7");
    } else if n == 8 {
        out.append("8");
    } else if n == 9 {
        out.append("9");
    } else if n == 10 {
        out.append("a");
    } else if n == 11 {
        out.append("b");
    } else if n == 12 {
        out.append("c");
    } else if n == 13 {
        out.append("d");
    } else if n == 14 {
        out.append("e");
    } else {
        out.append("f");
    }
    proof {
        assert(final(out)@ =~= old(out)@ + seq![nibble_char(n)]);
    }
}

/// Renders a byte string as lowercase hexadecimal text.
pub fn encode_hex(bytes: &Vec<u8>) -> (s: String)
    ensures
        s@ == hex_of(bytes@),
{
    let mut out = String::new();
    let mut i: usize = 0;
    while i < bytes.len()
        invariant
            i <= bytes.len(),
            out@.len() == 2 * i,
            forall|j: int| 0 <= j < out@.len() ==> out@[j] == hex_of(bytes@)[j],
        decreases bytes.len() - i,
    {
        let x = bytes[i];
        push_nibble(&mut out, x / 16);
        push_nibble(&mut out, x % 16);
        i = i + 1;
    }
    proof {
        assert(out@ =~= hex_of(bytes@));
    }
    out
}

/// The nibble an executable digit character stands for, or `None` where
/// the character is not a lowercase hexadecimal digit.
fn hex_char_val(c: char) -> (r: Option<u8>)
    ensures
        r is Some <==> is_hex_char(c),
        r is Some ==> r->Some_0 == nibble_val(c),
{
    if c == '0' {
        Some(0)
    } else if c == '1' {
        Some(1)
    } else if c == '2' {
        Some(2)
    } else if c == '3' {
        Some(3)
    } else if c == '4' {
        Some(4)
    } else if c == '5' {
        Some(5)
    } else if c == '6' {
        Some(6)
    } else if c == '7' {
        Some(7)
    } else if c == '8' {
        Some(8)
    } else if c == '9' {
        Some(9)
    } else if c == 'a' {
        Some(10)
    } else if c == 'b' {
        Some(11)
    } else if c == 'c' {
        Some(12)
    } else if c == 'd' {
        Some(13)
    } else if c == 'e' {
        Some(14)
    } else if c == 'f' {
        Some(15)
    } else {
        None
    }
}

/// Reads a hexadecimal rendering back into the byte string it stands
/// for; `None` exactly where the text is not such a rendering.
pub fn decode_hex(s: &str) -> (r: Option<Vec<u8>>)
    ensures
        r is Some <==> hex_shaped(s@),
        r is Some ==> r->Some_0@ == unhex(s@),
{
    let n = s.unicode_len();
    if n % 2 != 0 {
        return None;
    }
    let mut out: Vec<u8> = Vec::new();
    let mut i: usize = 0;
    while i < n
        invariant
            s@.len() == n,
            n % 2 == 0,
            i % 2 == 0,
            i <= n,
            out@.len() == i / 2,
            forall|j: int| 0 <= j < i ==> is_hex_char(#[trigger] s@[j]),
            forall|j: int| 0 <= j < out@.len() ==> out@[j] == unhex(s@)[j],
        decreases n - i,
    {
        let hi = s.get_char(i);
        let lo = s.get_char(i + 1);
        let hv = match hex_char_val(hi) {
            Some(v) => v,
            None => {
                return None;
            },
        };
        let lv = match hex_char_val(lo) {
            Some(v) => v,
            None => {
                return None;
            },
        };
        let byte: u8 = hv * 16 + lv;
        out.push(byte);
        proof {
            let k = i / 2;
            assert(2 * k == i && 2 * k + 1 == i + 1);
            assert(unhex(s@)[k as int] == (nibble_val(s@[i as int]) * 16 + nibble_val(
                s@[i as int + 1],
            )) as u8);
        }
        i = i + 2;
    }
    proof {
        assert(out@ =~= unhex(s@));
    }
    Some(out)
}

} // verus!
