//! The byte interpreter: a pure, total function from an arbitrary byte
//! sequence to a best-guess typed textual rendering, dispatching on length
//! alone (0, 1, 2, 4, 8 bytes are decoded as bool or little-endian unsigned
//! integers; every other length is tried as UTF-8 and falls back to a raw
//! byte list).

use vstd::prelude::*;

verus! {

use vstd::string::*;

/// The decimal digit character for a value below ten.
pub open spec fn dec_digit(d: nat) -> char {
    if d == 0 {
        '0'
    } else if d == 1 {
        '1'
    } else if d == 2 {
        '2'
    } else if d == 3 {
        '3'
    } else if d == 4 {
        '4'
    } else if d == 5 {
        '5'
    } else if d == 6 {
        '6'
    } else if d == 7 {
        '7'
    } else if d == 8 {
        '8'
    } else {
        '9'
    }
}

/// The usual decimal rendering of a natural number, most significant digit
/// first, with no leading zeros (zero itself is rendered "0").
pub open spec fn dec_chars(n: nat) -> Seq<char>
    decreases n,
{
    if n < 10 {
        seq![dec_digit(n)]
    } else {
        dec_chars(n / 10).push(dec_digit(n % 10))
    }
}

fn digit_str(d: u64) -> (s: &'static str)
    requires
        d < 10,
    ensures
        s@ == seq![dec_digit(d as nat)],
{
    let s: &'static str = if d == 0 {
        "0"
    } else if d == 1 {
        "1"
    } else if d == 2 {
        "2"
    } else if d == 3 {
        "3"
    } else if d == 4 {
        "4"
    } else if d == 5 {
        "5"
    } else if d == 6 {
        "6"
    } else if d == 7 {
        "7"
    } else if d == 8 {
        "8"
    } else {
        "9"
    };
    proof {
        reveal_strlit("0");
        reveal_strlit("1");
        reveal_strlit("2");
        reveal_strlit("3");
        reveal_strlit("4");
        reveal_strlit("5");
        reveal_strlit("6");
        reveal_strlit("7");
        reveal_strlit("8");
        reveal_strlit("9");
        assert(s@ =~= seq![dec_digit(d as nat)]);
    }
    s
}

/// Renders a 64-bit unsigned integer in decimal.
pub fn u64_to_dec(n: u64) -> (s: String)
    ensures
        s@ == dec_chars(n as nat),
    decreases n,
{
    if n < 10 {
        let s = String::from_str(digit_str(n));
        s
    } else {
        proof {
            assert(n / 10 < n) by (nonlinear_arith)
                requires
                    n >= 10,
            ;
        }
        let q = u64_to_dec(n / 10);
        let s = q.concat(digit_str(n % 10));
        proof {
            assert(s@ =~= dec_chars(n as nat));
        }
        s
    }
}

/// The value of a byte sequence read as a little-endian unsigned integer:
/// the first byte is the least significant, and each later byte weighs 256
/// times more than the one before it.
pub open spec fn le_value(s: Seq<u8>) -> nat
    decreases s.len(),
{
    if s.len() == 0 {
        0
    } else {
        (s[0] as nat) + 256 * le_value(s.drop_first())
    }
}

/// 256 raised to the given power: the weight of the byte at that position
/// in a little-endian reading.
pub open spec fn pow256(n: nat) -> nat
    decreases n,
{
    if n == 0 {
        1
    } else {
        256 * pow256((n - 1) as nat)
    }
}

/// A little-endian reading of a byte sequence is bounded by 256 raised to
/// its length.
pub proof fn lemma_le_value_bound(s: Seq<u8>)
    ensures
        le_value(s) < pow256(s.len()),
    decreases s.len(),
{
    if s.len() > 0 {
        lemma_le_value_bound(s.drop_first());
    }
}

proof fn lemma_pow256_small(k: nat)
    requires
        k <= 7,
    ensures
        pow256(k) <= 0x100000000000000,
{
    assert(pow256(0) == 1);
    assert(pow256(1) == 256);
    assert(pow256(2) == 0x10000);
    assert(pow256(3) == 0x1000000);
    assert(pow256(4) == 0x100000000);
    assert(pow256(5) == 0x10000000000);
    assert(pow256(6) == 0x1000000000000);
    assert(pow256(7) == 0x100000000000000);
}

fn le_bytes_value(bytes: &[u8]) -> (v: u64)
    requires
        bytes@.len() <= 8,
    ensures
        v as nat == le_value(bytes@),
{
    let len = bytes.len();
    let mut v: u64 = 0;
    let mut i: usize = len;
    while i > 0
        invariant
            i <= len == bytes@.len() <= 8,
            v as nat == le_value(bytes@.skip(i as int)),
        decreases i,
    {
        proof {
            lemma_le_value_bound(bytes@.skip(i as int));
            lemma_pow256_small((bytes@.len() - i) as nat);
            assert(bytes@.skip(i as int - 1).drop_first() =~= bytes@.skip(i as int));
            assert(bytes@.skip(i as int - 1)[0] == bytes@[i as int - 1]);
        }
        i = i - 1;
        v = (bytes[i] as u64) + 256 * v;
    }
    proof {
        assert(bytes@.skip(0) =~= bytes@);
    }
    v
}

/// The decimal renderings of the bytes of a sequence, separated by ", ".
pub open spec fn byte_list_chars(s: Seq<u8>) -> Seq<char>
    decreases s.len(),
{
    if s.len() == 0 {
        Seq::empty()
    } else if s.len() == 1 {
        dec_chars(s[0] as nat)
    } else {
        dec_chars(s[0] as nat) + ", "@ + byte_list_chars(s.drop_first())
    }
}

fn byte_list_string(bytes: &[u8], start: usize) -> (s: String)
    requires
        start <= bytes@.len(),
    ensures
        s@ == byte_list_chars(bytes@.skip(start as int)),
    decreases bytes@.len() - start,
{
    if start == bytes.len() {
        let s = String::new();
        proof {
            assert(s@ =~= byte_list_chars(bytes@.skip(start as int)));
        }
        s
    } else if start + 1 == bytes.len() {
        let s = u64_to_dec(bytes[start] as u64);
        proof {
            assert(bytes@.skip(start as int) =~= seq![bytes@[start as int]]);
        }
        s
    } else {
        let head = u64_to_dec(bytes[start] as u64);
        let head = head.concat(", ");
        let rest = byte_list_string(bytes, start + 1);
        let s = head.concat(rest.as_str());
        proof {
            assert(bytes@.skip(start as int).drop_first() =~= bytes@.skip(start as int + 1));
            assert(bytes@.skip(start as int)[0] == bytes@[start as int]);
            assert(s@ =~= byte_list_chars(bytes@.skip(start as int)));
        }
        s
    }
}

/// Relies on core::str::from_utf8: it returns `Ok` exactly when the input
/// bytes are valid UTF-8, and the returned slice views those same bytes.
#[verifier::external_body]
fn try_utf8<'a>(bytes: &'a [u8]) -> (r: Option<&'a str>)
    ensures
        r is Some <==> vstd::utf8::valid_utf8(bytes@),
        r is Some ==> r->0.spec_bytes() == bytes@,
{
    core::str::from_utf8(bytes).ok()
}

/// The interpreter's dispatch policy, ordered by byte length, first match
/// wins: empty, boolean, little-endian unsigned integer of the matching
/// width, UTF-8 text, and last a raw byte list.
pub open spec fn interp(s: Seq<u8>) -> Seq<char> {
    if s.len() == 0 {
        "Empty"@
    } else if s.len() == 1 {
        if s[0] == 0 {
            "bool: false"@
        } else if s[0] == 1 {
            "bool: true"@
        } else {
            "u8: "@ + dec_chars(s[0] as nat)
        }
    } else if s.len() == 2 {
        "u16: "@ + dec_chars(le_value(s))
    } else if s.len() == 4 {
        "u32: "@ + dec_chars(le_value(s))
    } else if s.len() == 8 {
        "u64: "@ + dec_chars(le_value(s))
    } else if vstd::utf8::valid_utf8(s) {
        "String: "@ + vstd::utf8::decode_utf8(s)
    } else {
        "Raw bytes: ["@ + byte_list_chars(s) + "]"@
    }
}

/// One best-guess typed reading of a byte sequence: the sum of readings
/// the ordered dispatch can produce.
#[derive(Debug, Clone, PartialEq, Eq)]
pub enum Rendering {
    Empty,
    Bool(bool),
    UInt8(u8),
    UInt16(u16),
    UInt32(u32),
    UInt64(u64),
    Text(String),
    RawBytes(Vec<u8>),
}

/// True when the rendering is the one the dispatch policy assigns to the
/// byte sequence.
pub open spec fn classifies(s: Seq<u8>, r: Rendering) -> bool {
    let plain_len = s.len() != 0 && s.len() != 1 && s.len() != 2 && s.len() != 4 && s.len() != 8;
    match r {
        Rendering::Empty => s.len() == 0,
        Rendering::Bool(b) => s.len() == 1 && (s[0] == 0 || s[0] == 1) && (b <==> s[0] == 1),
        Rendering::UInt8(v) => s.len() == 1 && s[0] >= 2 && v == s[0],
        Rendering::UInt16(v) => s.len() == 2 && v as nat == le_value(s),
        Rendering::UInt32(v) => s.len() == 4 && v as nat == le_value(s),
        Rendering::UInt64(v) => s.len() == 8 && v as nat == le_value(s),
        Rendering::Text(t) => plain_len && vstd::utf8::valid_utf8(s) && t@
            == vstd::utf8::decode_utf8(s),
        Rendering::RawBytes(raw) => plain_len && !vstd::utf8::valid_utf8(s) && raw@ == s,
    }
}

/// Assigns a byte sequence its typed reading, by the ordered dispatch:
/// empty, boolean, little-endian unsigned integer of the matching width,
/// UTF-8 text, raw bytes.
pub fn classify(bytes: &[u8]) -> (r: Rendering)
    ensures
        classifies(bytes@, r),
{
    let n = bytes.len();
    if n == 0 {
        Rendering::Empty
    } else if n == 1 {
        let b = bytes[0];
        if b == 0 {
            Rendering::Bool(false)
        } else if b == 1 {
            Rendering::Bool(true)
        } else {
            Rendering::UInt8(b)
        }
    } else if n == 2 {
        let v = le_bytes_value(bytes);
        proof {
            lemma_le_value_bound(bytes@);
            assert(pow256(0) == 1);
            assert(pow256(1) == 256);
            assert(pow256(2) == 0x10000);
        }
        Rendering::UInt16(v as u16)
    } else if n == 4 {
        let v = le_bytes_value(bytes);
        proof {
            lemma_le_value_bound(bytes@);
            assert(pow256(0) == 1);
            assert(pow256(1) == 256);
            assert(pow256(2) == 0x10000);
            assert(pow256(3) == 0x1000000);
            assert(pow256(4) == 0x100000000);
        }
        Rendering::UInt32(v as u32)
    } else if n == 8 {
        let v = le_bytes_value(bytes);
        Rendering::UInt64(v)
    } else {
        match try_utf8(bytes) {
            Some(text) => {
                proof {
                    vstd::utf8::encode_utf8_decode_utf8(text@);
                }
                Rendering::Text(text.to_owned())
            },
            None => Rendering::RawBytes(vstd::slice::slice_to_vec(bytes)),
        }
    }
}

/// The fixed-format string of one typed reading: its type's name, a colon,
/// and its value.
pub open spec fn spec_render(r: Rendering) -> Seq<char> {
    match r {
        Rendering::Empty => "Empty"@,
        Rendering::Bool(b) => if b {
            "bool: true"@
        } else {
            "bool: false"@
        },
        Rendering::UInt8(v) => "u8: "@ + dec_chars(v as nat),
        Rendering::UInt16(v) => "u16: "@ + dec_chars(v as nat),
        Rendering::UInt32(v) => "u32: "@ + dec_chars(v as nat),
        Rendering::UInt64(v) => "u64: "@ + dec_chars(v as nat),
        Rendering::Text(t) => "String: "@ + t@,
        Rendering::RawBytes(raw) => "Raw bytes: ["@ + byte_list_chars(raw@) + "]"@,
    }
}

/// Writes one typed reading out as its fixed-format string.
pub fn render(r: &Rendering) -> (s: String)
    ensures
        s@ == spec_render(*r),
{
    match r {
        Rendering::Empty => String::from_str("Empty"),
        Rendering::Bool(b) => if *b {
            String::from_str("bool: true")
        } else {
            String::from_str("bool: false")
        },
        Rendering::UInt8(v) => String::from_str("u8: ").concat(u64_to_dec(*v as u64).as_str()),
        Rendering::UInt16(v) => String::from_str("u16: ").concat(u64_to_dec(*v as u64).as_str()),
        Rendering::UInt32(v) => String::from_str("u32: ").concat(u64_to_dec(*v as u64).as_str()),
        Rendering::UInt64(v) => String::from_str("u64: ").concat(u64_to_dec(*v).as_str()),
        Rendering::Text(t) => String::from_str("String: ").concat(t.as_str()),
        Rendering::RawBytes(raw) => {
            let list = byte_list_string(raw.as_slice(), 0);
            let s = String::from_str("Raw bytes: [").concat(list.as_str()).concat("]");
            proof {
                assert(raw@.skip(0) =~= raw@);
            }
            s
        },
    }
}

/// The reading the dispatch assigns to a byte sequence renders to exactly
/// the sequence's own rendering: classification loses nothing the final
/// string shows.
pub proof fn lemma_classified_rendering(s: Seq<u8>, r: Rendering)
    requires
        classifies(s, r),
    ensures
        spec_render(r) == interp(s),
{
}

/// Produces the best-guess rendering of an arbitrary byte sequence. Pure
/// and total: every byte sequence, the empty one included, has a rendering.
pub fn interpret(bytes: &[u8]) -> (r: String)
    ensures
        r@ == interp(bytes@),
{
    let reading = classify(bytes);
    let s = render(&reading);
    proof {
        lemma_classified_rendering(bytes@, reading);
    }
    s
}

} // verus!
