//! Hexadecimal text of key material, as the command-line tools store keys.

use vstd::prelude::*;

use vstd::string::StringSliceAdditionalSpecFns;
use vstd::utf8::is_char_boundary;

verus! {

/// The lowercase hexadecimal digit for `d < 16`.
pub open spec fn hex_char(d: nat) -> char {
    if d < 10 {
        ((d + 48) as u8) as char
    } else {
        ((d + 87) as u8) as char
    }
}

/// Two lowercase hexadecimal digits per byte, as `{:02x}` writes them.
pub open spec fn hex_text(b: Seq<u8>) -> Seq<char>
    decreases b.len(),
{
    if b.len() == 0 {
        Seq::empty()
    } else {
        hex_text(b.drop_last()) + seq![hex_char(b.last() as nat / 16), hex_char(b.last() as nat % 16)]
    }
}

fn hex_digit(d: u8) -> (s: &'static str)
    requires
        d < 16,
    ensures
        s@ == seq![hex_char(d as nat)],
{
    proof {
        reveal_strlit("0");
        reveal_strlit("1");
        reveal_strlit("2");
        reveal_strlit("3");
        reveal_strlit("4");
        reveal_strlit("5");
        reveal_strlit("6");
        reveal_strlit("7");
        reveal_strlit("8");
        reveal_strlit("9");
        reveal_strlit("a");
        reveal_strlit("b");
        reveal_strlit("c");
        reveal_strlit("d");
        reveal_strlit("e");
        reveal_strlit("f");
    }
    if d == 0 { "0" }
    else if d == 1 { "1" }
    else if d == 2 { "2" }
    else if d == 3 { "3" }
    else if d == 4 { "4" }
    else if d == 5 { "5" }
    else if d == 6 { "6" }
    else if d == 7 { "7" }
    else if d == 8 { "8" }
    else if d == 9 { "9" }
    else if d == 10 { "a" }
    else if d == 11 { "b" }
    else if d == 12 { "c" }
    else if d == 13 { "d" }
    else if d == 14 { "e" }
    else { "f" }
}

/// The lowercase hexadecimal text of `bytes`.
pub fn hex_string(bytes: &[u8]) -> (s: String)
    ensures
        s@ == hex_text(bytes@),
{
    let mut s = String::new();
    let n = bytes.len();
    let mut i: usize = 0;
    while i < n
        invariant
            n == bytes@.len(),
            i <= n,
            s@ == hex_text(bytes@.subrange(0, i as int)),
        decreases n - i,
    {
        let b = bytes[i];
        s.append(hex_digit(b / 16));
        s.append(hex_digit(b % 16));
        assert(bytes@.subrange(0, i + 1).drop_last() =~= bytes@.subrange(0, i as int));
        i = i + 1;
    }
    assert(bytes@.subrange(0, n as int) =~= bytes@);
    s
}

/// The value of a hexadecimal digit byte (either case).
pub open spec fn hex_value(c: u8) -> Option<nat> {
    if 48 <= c <= 57 {
        Some((c - 48) as nat)
    } else if 97 <= c <= 102 {
        Some((c - 87) as nat)
    } else if 65 <= c <= 70 {
        Some((c - 55) as nat)
    } else {
        None
    }
}

/// What `u8::from_str_radix(.., 16)` makes of a two-byte text: two digits,
/// or a `+` sign and one digit.
pub open spec fn pair_value(a: u8, b: u8) -> Option<u8> {
    match (hex_value(a), hex_value(b)) {
        (Some(x), Some(y)) => Some((x * 16 + y) as u8),
        (None, Some(y)) => if a == 43 {
            Some(y as u8)
        } else {
            None
        },
        _ => None,
    }
}

/// Reading pairs of bytes from position `i` on.
pub enum HexScan {
    /// All pairs read: their values.
    Decoded(Seq<u8>),
    /// A pair is not a hexadecimal number.
    Invalid,
    /// A pair runs past the end or cuts a character in two: the slicing
    /// of the text panics there.
    Panics,
}

pub open spec fn hex_scan(b: Seq<u8>, i: nat) -> HexScan
    decreases b.len() - i,
{
    if i >= b.len() {
        HexScan::Decoded(Seq::empty())
    } else if i + 2 > b.len() || !is_char_boundary(b, i as int) || !is_char_boundary(b, i as int + 2) {
        HexScan::Panics
    } else {
        match pair_value(b[i as int], b[i as int + 1]) {
            None => HexScan::Invalid,
            Some(v) => match hex_scan(b, i + 2) {
                HexScan::Decoded(rest) => HexScan::Decoded(seq![v] + rest),
                other => other,
            },
        }
    }
}

fn hex_value_exec(c: u8) -> (v: Option<u8>)
    ensures
        match hex_value(c) {
            Some(x) => v == Some(x as u8),
            None => v is None,
        },
{
    if 48 <= c && c <= 57 {
        Some(c - 48)
    } else if 97 <= c && c <= 102 {
        Some(c - 87)
    } else if 65 <= c && c <= 70 {
        Some(c - 55)
    } else {
        None
    }
}

/// What reading a text as hexadecimal pairs gives.
pub enum HexRead {
    /// The bytes of all pairs.
    Bytes(Vec<u8>),
    /// A pair is not a hexadecimal number.
    Invalid,
    /// A pair runs past the end of the text or cuts a character in two.
    CutsText,
}

/// Reads `s` two bytes at a time, as `u8::from_str_radix(&s[i..i + 2], 16)`
/// for `i = 0, 2, ...`, stopping at the first pair that is no number or
/// whose slice would cut the text.
pub fn read_hex(s: &str) -> (res: HexRead)
    ensures
        match hex_scan(s.spec_bytes(), 0) {
            HexScan::Decoded(v) => res matches HexRead::Bytes(out) && out@ == v,
            HexScan::Invalid => res is Invalid,
            HexScan::Panics => res is CutsText,
        },
{
    let bytes = s.as_bytes();
    let n = bytes.len();
    let mut out: Vec<u8> = Vec::new();
    let mut i: usize = 0;
    while i < n
        invariant
            bytes@ == s.spec_bytes(),
            n == bytes@.len(),
            i <= n,
            match hex_scan(bytes@, 0) {
                HexScan::Decoded(v) => hex_scan(bytes@, i as nat) matches HexScan::Decoded(w) && v == out@ + w,
                HexScan::Invalid => hex_scan(bytes@, i as nat) is Invalid,
                HexScan::Panics => hex_scan(bytes@, i as nat) is Panics,
            },
        decreases n - i,
    {
        if n - i < 2 || !s.is_char_boundary(i) || !s.is_char_boundary(i + 2) {
            return HexRead::CutsText;
        }
        let a = bytes[i];
        let b = bytes[i + 1];
        let v = match (hex_value_exec(a), hex_value_exec(b)) {
            (Some(x), Some(y)) => x * 16 + y,
            (None, Some(y)) => {
                if a == 43 {
                    y
                } else {
                    return HexRead::Invalid;
                }
            },
            _ => return HexRead::Invalid,
        };
        let ghost w = out@;
        out.push(v);
        proof {
            if let HexScan::Decoded(all) = hex_scan(bytes@, 0) {
                assert(out@ == w + seq![v]);
            }
        }
        i = i + 2;
    }
    HexRead::Bytes(out)
}

/// The bytes that a hexadecimal text denotes, two digits per byte; `None`
/// where a pair is not a hexadecimal number.
pub fn hex_decode(s: &str) -> (res: Option<Vec<u8>>)
    requires
        !(hex_scan(s.spec_bytes(), 0) is Panics),
    ensures
        hex_scan(s.spec_bytes(), 0) matches HexScan::Decoded(v) ==> (res matches Some(out) && out@ == v),
        hex_scan(s.spec_bytes(), 0) is Invalid ==> res is None,
{
    match read_hex(s) {
        HexRead::Bytes(v) => Some(v),
        _ => None,
    }
}

/// The characters of `hex_text(b)`: two digits per byte, high digit first.
proof fn lemma_hex_text_chars(b: Seq<u8>)
    ensures
        hex_text(b).len() == 2 * b.len(),
        forall|j: int|
            0 <= j < b.len() ==> #[trigger] hex_text(b)[2 * j] == hex_char(b[j] as nat / 16) && hex_text(b)[2 * j
                + 1] == hex_char(b[j] as nat % 16),
    decreases b.len(),
{
    if b.len() > 0 {
        let t = b.drop_last();
        lemma_hex_text_chars(t);
        assert forall|j: int| 0 <= j < b.len() implies #[trigger] hex_text(b)[2 * j] == hex_char(b[j] as nat / 16)
            && hex_text(b)[2 * j + 1] == hex_char(b[j] as nat % 16) by {
            if j < t.len() {
                assert(hex_text(b)[2 * j] == hex_text(t)[2 * j]);
                assert(hex_text(b)[2 * j + 1] == hex_text(t)[2 * j + 1]);
            }
        }
    }
}

/// The byte of a digit character, and the digit's value read back.
proof fn lemma_hex_char_value(d: nat)
    requires
        d < 16,
    ensures
        (hex_char(d) as u32) < 128,
        hex_value(hex_char(d) as u8) == Some(d),
{
    if d < 10 {
        assert(((d + 48) as u8) as char as u32 == d + 48);
        assert(hex_char(d) as u8 == (d + 48) as u8);
    } else {
        assert(((d + 87) as u8) as char as u32 == d + 87);
        assert(hex_char(d) as u8 == (d + 87) as u8);
    }
}

/// Reading the pairs of a hexadecimal text from pair `j` on gives the bytes
/// from `j` on.
proof fn lemma_hex_scan_from(b: Seq<u8>, bytes: Seq<u8>, j: int)
    requires
        0 <= j <= b.len(),
        bytes.len() == 2 * b.len(),
        forall|i: int| 0 <= i <= bytes.len() ==> #[trigger] is_char_boundary(bytes, i),
        forall|k: int|
            0 <= k < b.len() ==> pair_value(bytes[2 * k], #[trigger] bytes[2 * k + 1]) == Some(b[k]),
    ensures
        hex_scan(bytes, (2 * j) as nat) == HexScan::Decoded(b.subrange(j, b.len() as int)),
    decreases b.len() - j,
{
    if j < b.len() {
        lemma_hex_scan_from(b, bytes, j + 1);
        assert(is_char_boundary(bytes, 2 * j));
        assert(is_char_boundary(bytes, 2 * j + 2));
        assert(pair_value(bytes[2 * j], bytes[2 * j + 1]) == Some(b[j]));
        assert(seq![b[j]] + b.subrange(j + 1, b.len() as int) =~= b.subrange(j, b.len() as int));
    } else {
        assert(b.subrange(j, b.len() as int) =~= Seq::<u8>::empty());
    }
}

/// Decoding the hexadecimal text of a byte string gives the bytes back:
/// `hex_decode(&hex_string(b))` is `Some(b)`.
pub proof fn lemma_hex_roundtrip(b: Seq<u8>)
    ensures
        hex_scan(vstd::utf8::encode_utf8(hex_text(b)), 0) == HexScan::Decoded(b),
{
    let t = hex_text(b);
    lemma_hex_text_chars(b);
    assert forall|i: int| 0 <= i < t.len() implies '\0' <= #[trigger] t[i] <= '\u{7f}' by {
        let j = i / 2;
        lemma_hex_char_value(b[j] as nat / 16);
        lemma_hex_char_value(b[j] as nat % 16);
        assert(t[2 * j] == hex_char(b[j] as nat / 16));
        if i == 2 * j {
            assert(t[i] == hex_char(b[j] as nat / 16));
        } else {
            assert(i == 2 * j + 1);
            assert(t[i] == hex_char(b[j] as nat % 16));
        }
    }
    vstd::utf8::is_ascii_chars_encode_utf8(t);
    let bytes = vstd::utf8::encode_utf8(t);
    vstd::utf8::encode_utf8_valid_utf8(t);
    assert forall|i: int| 0 <= i <= bytes.len() implies #[trigger] is_char_boundary(bytes, i) by {
        if i == bytes.len() {
            vstd::utf8::is_char_boundary_start_end_of_seq(bytes);
        } else {
            let j = i / 2;
            lemma_hex_char_value(b[j] as nat / 16);
            lemma_hex_char_value(b[j] as nat % 16);
            assert(t[2 * j] == hex_char(b[j] as nat / 16));
            if i == 2 * j {
                assert(t[i] == hex_char(b[j] as nat / 16));
            } else {
                assert(i == 2 * j + 1);
                assert(t[i] == hex_char(b[j] as nat % 16));
            }
            assert(bytes[i] == t[i] as u8);
            vstd::utf8::is_char_boundary_iff_not_is_continuation_byte(bytes, i);
        }
    }
    assert forall|k: int| 0 <= k < b.len() implies pair_value(bytes[2 * k], #[trigger] bytes[2 * k + 1]) == Some(
        b[k],
    ) by {
        let hi = b[k] as nat / 16;
        let lo = b[k] as nat % 16;
        lemma_hex_char_value(hi);
        lemma_hex_char_value(lo);
        assert(t[2 * k] == hex_char(hi));
        assert(bytes[2 * k] == t[2 * k] as u8);
        assert(bytes[2 * k + 1] == t[2 * k + 1] as u8);
        assert((hi * 16 + lo) as u8 == b[k]);
    }
    lemma_hex_scan_from(b, bytes, 0);
    assert(b.subrange(0, b.len() as int) =~= b);
}

} // verus!
