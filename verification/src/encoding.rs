//! Textual encodings the block fingerprint is built from: decimal renderings
//! of the numeric block fields and the lowercase hex form of a digest.
use vstd::prelude::*;
use vstd::string::StrSliceExecFns;
use vstd::string::StringExecFns;

verus! {

/// The character standing for a single hex digit value (0 to 15).
pub open spec fn spec_digit_char(d: u8) -> char {
    if d == 0 {
        '0'
    } else if d == 1 {
        '1'
    } else if d == 2 {
        '2'
    } else if d == 3 {
        '3'
    } else if d == 4 {
        '4'
    } else if d == 5 {
        '5'
    } else if d == 6 {
        '6'
    } else if d == 7 {
        '7'
    } else if d == 8 {
        '8'
    } else if d == 9 {
        '9'
    } else if d == 10 {
        'a'
    } else if d == 11 {
        'b'
    } else if d == 12 {
        'c'
    } else if d == 13 {
        'd'
    } else if d == 14 {
        'e'
    } else {
        'f'
    }
}

/// Whether `c` is a hex digit, upper or lower case.
pub open spec fn is_hex_digit(c: char) -> bool {
    (48 <= c as u32 && c as u32 <= 57) || (97 <= c as u32 && c as u32 <= 102) || (65 <= c as u32
        && c as u32 <= 70)
}

/// The value of the hex digit `c` (meaningful only when `is_hex_digit(c)`).
pub open spec fn hex_digit_value(c: char) -> int {
    if 48 <= c as u32 && c as u32 <= 57 {
        c as u32 - 48
    } else if 97 <= c as u32 && c as u32 <= 102 {
        c as u32 - 87
    } else if 65 <= c as u32 && c as u32 <= 70 {
        c as u32 - 55
    } else {
        0
    }
}

/// Each digit character is a hex digit and stands for the value it was
/// chosen for.
pub proof fn lemma_digit_char_facts()
    ensures
        forall|d: u8|
            d < 16 ==> is_hex_digit(#[trigger] spec_digit_char(d)) && hex_digit_value(
                spec_digit_char(d),
            ) == d as int,
{
}

/// A hex digit stands for zero exactly when it is the character `'0'`.
pub proof fn lemma_hex_digit_zero(c: char)
    requires
        is_hex_digit(c),
    ensures
        hex_digit_value(c) == 0 <==> c == '0',
{
}

/// The decimal rendering of a natural number, most significant digit first.
pub open spec fn spec_dec_nat(n: nat) -> Seq<char>
    decreases n,
{
    if n < 10 {
        seq![spec_digit_char(n as u8)]
    } else {
        spec_dec_nat(n / 10) + seq![spec_digit_char((n % 10) as u8)]
    }
}

/// The decimal rendering of a signed number: a minus sign, then the digits.
pub open spec fn spec_dec_int(n: int) -> Seq<char> {
    if n < 0 {
        seq!['-'] + spec_dec_nat((-n) as nat)
    } else {
        spec_dec_nat(n as nat)
    }
}

fn digit_str(d: u8) -> (r: &'static str)
    requires
        d < 16,
    ensures
        r@ == seq![spec_digit_char(d)],
{
    proof {
        reveal_strlit("0");
        reveal_strlit("1");
        reveal_strlit("2");
        reveal_strlit("3");
        reveal_strlit("4");
        reveal_strlit("5");
        reveal_strlit("6");
        reveal_strlit("7");
        reveal_strlit("8");
        reveal_strlit("9");
        reveal_strlit("a");
        reveal_strlit("b");
        reveal_strlit("c");
        reveal_strlit("d");
        reveal_strlit("e");
        reveal_strlit("f");
        assert("0"@ =~= seq!['0']);
        assert("1"@ =~= seq!['1']);
        assert("2"@ =~= seq!['2']);
        assert("3"@ =~= seq!['3']);
        assert("4"@ =~= seq!['4']);
        assert("5"@ =~= seq!['5']);
        assert("6"@ =~= seq!['6']);
        assert("7"@ =~= seq!['7']);
        assert("8"@ =~= seq!['8']);
        assert("9"@ =~= seq!['9']);
        assert("a"@ =~= seq!['a']);
        assert("b"@ =~= seq!['b']);
        assert("c"@ =~= seq!['c']);
        assert("d"@ =~= seq!['d']);
        assert("e"@ =~= seq!['e']);
        assert("f"@ =~= seq!['f']);
    }
    match d {
        0 => "0",
        1 => "1",
        2 => "2",
        3 => "3",
        4 => "4",
        5 => "5",
        6 => "6",
        7 => "7",
        8 => "8",
        9 => "9",
        10 => "a",
        11 => "b",
        12 => "c",
        13 => "d",
        14 => "e",
        _ => "f",
    }
}

/// Renders `n` in decimal, as `u64::to_string` would.
pub fn u64_to_dec(n: u64) -> (r: String)
    ensures
        r@ == spec_dec_nat(n as nat),
    decreases n,
{
    if n < 10 {
        digit_str(n as u8).to_owned()
    } else {
        let mut s = u64_to_dec(n / 10);
        s.append(digit_str((n % 10) as u8));
        s
    }
}

/// Renders `n` in decimal with a leading minus sign when negative, as
/// `i64::to_string` would.
pub fn i64_to_dec(n: i64) -> (r: String)
    ensures
        r@ == spec_dec_int(n as int),
{
    if n < 0 {
        let mag: u64 = (-(n as i128)) as u64;
        let mut s = "-".to_owned();
        proof {
            reveal_strlit("-");
            assert("-"@ =~= seq!['-']);
        }
        let digits = u64_to_dec(mag);
        s.append(digits.as_str());
        s
    } else {
        u64_to_dec(n as u64)
    }
}

/// The lowercase hex rendering of a byte string, two digits per byte.
pub open spec fn spec_hex_encode(bs: Seq<u8>) -> Seq<char>
    decreases bs.len(),
{
    if bs.len() == 0 {
        Seq::empty()
    } else {
        spec_hex_encode(bs.drop_last()) + seq![
            spec_digit_char((bs.last() / 16) as u8),
            spec_digit_char((bs.last() % 16) as u8),
        ]
    }
}

pub proof fn lemma_hex_encode_props(bs: Seq<u8>)
    ensures
        spec_hex_encode(bs).len() == 2 * bs.len(),
        forall|j: int|
            0 <= j < bs.len() ==> #[trigger] spec_hex_encode(bs)[2 * j] == spec_digit_char(
                (bs[j] / 16) as u8,
            ) && spec_hex_encode(bs)[2 * j + 1] == spec_digit_char((bs[j] % 16) as u8),
    decreases bs.len(),
{
    if bs.len() > 0 {
        lemma_hex_encode_props(bs.drop_last());
    }
}

/// Whether `h` is a well-formed hex string: even length, hex digits only.
pub open spec fn spec_hex_ok(h: Seq<char>) -> bool {
    h.len() % 2 == 0 && forall|j: int| 0 <= j < h.len() ==> is_hex_digit(#[trigger] h[j])
}

/// The byte at position `j` of the string that `h` hex-encodes.
pub open spec fn spec_hex_byte(h: Seq<char>, j: int) -> int {
    16 * hex_digit_value(h[2 * j]) + hex_digit_value(h[2 * j + 1])
}

/// Hex encoding round-trips: the encoded string is well-formed hex and
/// decodes back to the bytes it came from.
pub proof fn lemma_hex_encode_decodes(bs: Seq<u8>)
    ensures
        spec_hex_ok(spec_hex_encode(bs)),
        spec_hex_encode(bs).len() == 2 * bs.len(),
        forall|j: int| 0 <= j < bs.len() ==> #[trigger] spec_hex_byte(spec_hex_encode(bs), j)
            == bs[j],
{
    lemma_hex_encode_props(bs);
    lemma_digit_char_facts();
    assert forall|j: int| 0 <= j < spec_hex_encode(bs).len() implies is_hex_digit(
        #[trigger] spec_hex_encode(bs)[j],
    ) by {
        let k = j / 2;
        if j % 2 == 0 {
            assert(spec_hex_encode(bs)[2 * k] == spec_digit_char((bs[k] / 16) as u8));
        } else {
            assert(spec_hex_encode(bs)[2 * k] == spec_digit_char((bs[k] / 16) as u8));
            assert(spec_hex_encode(bs)[2 * k + 1] == spec_digit_char((bs[k] % 16) as u8));
        }
    }
    assert forall|j: int| 0 <= j < bs.len() implies #[trigger] spec_hex_byte(
        spec_hex_encode(bs),
        j,
    ) == bs[j] by {
        assert(spec_hex_encode(bs)[2 * j] == spec_digit_char((bs[j] / 16) as u8));
        assert(spec_hex_encode(bs)[2 * j + 1] == spec_digit_char((bs[j] % 16) as u8));
    }
}

/// Encodes `bytes` as lowercase hex, as `hex::encode` would.
pub fn hex_encode(bytes: &[u8]) -> (r: String)
    ensures
        r@ == spec_hex_encode(bytes@),
{
    let mut s = String::new();
    let mut i: usize = 0;
    while i < bytes.len()
        invariant
            i <= bytes@.len(),
            s@ == spec_hex_encode(bytes@.take(i as int)),
        decreases bytes@.len() - i,
    {
        let b = bytes[i];
        s.append(digit_str(b / 16));
        s.append(digit_str(b % 16));
        proof {
            let t = bytes@.take(i + 1);
            assert(t.drop_last() =~= bytes@.take(i as int));
            assert(t.last() == bytes@[i as int]);
        }
        i += 1;
    }
    proof {
        assert(bytes@.take(bytes@.len() as int) =~= bytes@);
    }
    s
}

} // verus!
