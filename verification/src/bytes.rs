//! Numbers as big-endian bytes, and bytes as hexadecimal text.

use vstd::prelude::*;

verus! {

/// The `n` low bytes of `v`, most significant first.
pub open spec fn big_endian(v: nat, n: nat) -> Seq<u8>
    decreases n,
{
    if n == 0 {
        Seq::empty()
    } else {
        big_endian(v / 256, (n - 1) as nat).push((v % 256) as u8)
    }
}

/// The number that `s` spells, most significant byte first.
pub open spec fn from_big_endian(s: Seq<u8>) -> nat
    decreases s.len(),
{
    if s.len() == 0 {
        0
    } else {
        from_big_endian(s.drop_last()) * 256 + s.last() as nat
    }
}

/// `256^n`.
pub open spec fn byte_range(n: nat) -> nat
    decreases n,
{
    if n == 0 {
        1
    } else {
        256 * byte_range((n - 1) as nat)
    }
}

/// There are as many bytes as were asked for.
pub proof fn big_endian_length(v: nat, n: nat)
    ensures
        big_endian(v, n).len() == n,
    decreases n,
{
    if n > 0 {
        big_endian_length(v / 256, (n - 1) as nat);
    }
}

/// Reading the bytes of a number that fits gives the number back.
pub proof fn big_endian_round_trip(v: nat, n: nat)
    requires
        v < byte_range(n),
    ensures
        from_big_endian(big_endian(v, n)) == v,
    decreases n,
{
    if n > 0 {
        let init = big_endian(v / 256, (n - 1) as nat);
        big_endian_round_trip(v / 256, (n - 1) as nat);
        assert(big_endian(v, n).drop_last() =~= init);
    }
}

/// Two numbers that fit have the same bytes only if they are the same number.
pub proof fn big_endian_is_injective(a: nat, b: nat, n: nat)
    requires
        a < byte_range(n),
        b < byte_range(n),
        big_endian(a, n) == big_endian(b, n),
    ensures
        a == b,
{
    big_endian_round_trip(a, n);
    big_endian_round_trip(b, n);
}

/// What `s` spells fits in as many bytes as `s` has.
pub proof fn from_big_endian_fits(s: Seq<u8>)
    ensures
        from_big_endian(s) < byte_range(s.len()),
    decreases s.len(),
{
    if s.len() > 0 {
        from_big_endian_fits(s.drop_last());
    }
}

/// Writing out a number that was read gives the bytes back.
pub proof fn from_big_endian_round_trip(s: Seq<u8>)
    ensures
        big_endian(from_big_endian(s), s.len()) == s,
    decreases s.len(),
{
    if s.len() > 0 {
        from_big_endian_round_trip(s.drop_last());
        let v = from_big_endian(s);
        assert(v / 256 == from_big_endian(s.drop_last()));
        assert(v % 256 == s.last());
        assert(s.drop_last().push(s.last()) =~= s);
    } else {
        assert(s =~= Seq::empty());
    }
}

/// The sizes of the fixed-width numbers.
pub proof fn byte_range_values()
    ensures
        byte_range(4) == 0x1_0000_0000,
        byte_range(8) == 0x1_0000_0000_0000_0000,
        byte_range(16) == 0x1_0000_0000_0000_0000_0000_0000_0000_0000,
{
    reveal_with_fuel(byte_range, 17);
}

/// The `n` low bytes of `v`, most significant first.
pub fn to_be_bytes(v: u128, n: usize) -> (r: Vec<u8>)
    ensures
        r@ == big_endian(v as nat, n as nat),
        r@.len() == n,
    decreases n,
{
    proof {
        big_endian_length(v as nat, n as nat);
    }
    if n == 0 {
        Vec::new()
    } else {
        let mut out = to_be_bytes(v / 256, n - 1);
        out.push((v % 256) as u8);
        out
    }
}

/// The number that the first four bytes of `s` spell.
pub fn be_u32(s: &[u8]) -> (r: u32)
    requires
        s@.len() >= 4,
    ensures
        r == from_big_endian(s@.take(4)),
{
    proof {
        reveal_with_fuel(from_big_endian, 5);
        let t = s@.take(4);
        assert(t.drop_last() =~= s@.take(3));
        assert(t.drop_last().drop_last() =~= s@.take(2));
        assert(t.drop_last().drop_last().drop_last() =~= s@.take(1));
        assert(t.drop_last().drop_last().drop_last().drop_last() =~= Seq::<u8>::empty());
    }
    ((s[0] as u32 * 256 + s[1] as u32) * 256 + s[2] as u32) * 256 + s[3] as u32
}

/// Appends every byte of `more`.
pub fn append(out: &mut Vec<u8>, more: &[u8])
    ensures
        final(out)@ == old(out)@ + more@,
{
    let ghost before = out@;
    let mut i: usize = 0;
    while i < more.len()
        invariant
            i <= more@.len(),
            out@ == before + more@.take(i as int),
        decreases more@.len() - i,
    {
        out.push(more[i]);
        assert(more@.take(i + 1) =~= more@.take(i as int).push(more@[i as int]));
        i = i + 1;
    }
    assert(more@.take(i as int) =~= more@);
}

/// Thirty-two bytes as an array.
pub fn to_array_32(s: &[u8]) -> (r: [u8; 32])
    requires
        s@.len() == 32,
    ensures
        r@ == s@,
{
    let mut out = [0u8; 32];
    let mut i: usize = 0;
    while i < 32
        invariant
            i <= 32,
            s@.len() == 32,
            forall|k: int| 0 <= k < i ==> out@[k] == s@[k],
        decreases 32 - i,
    {
        out[i] = s[i];
        i = i + 1;
    }
    assert(out@ =~= s@);
    out
}

/// Whether two byte strings are the same.
pub fn same_bytes(a: &[u8], b: &[u8]) -> (r: bool)
    ensures
        r == (a@ == b@),
{
    if a.len() != b.len() {
        return false;
    }
    let mut i: usize = 0;
    while i < a.len()
        invariant
            i <= a@.len(),
            a@.len() == b@.len(),
            forall|k: int| 0 <= k < i ==> a@[k] == b@[k],
        decreases a@.len() - i,
    {
        if a[i] != b[i] {
            return false;
        }
        i = i + 1;
    }
    assert(a@ =~= b@);
    true
}

/// The lower-case hexadecimal digit of `v`.
pub open spec fn hex_digit(v: int) -> char {
    if v < 10 {
        ('0' as int + v) as char
    } else {
        ('a' as int + v - 10) as char
    }
}

/// Two lower-case digits for each byte, the high half first.
pub open spec fn hex_text(s: Seq<u8>) -> Seq<char> {
    Seq::new(
        2 * s.len(),
        |i: int|
            if i % 2 == 0 {
                hex_digit(s[i / 2] as int / 16)
            } else {
                hex_digit(s[i / 2] as int % 16)
            },
    )
}

/// The value of an ASCII hexadecimal digit of either case, if it is one.
pub open spec fn hex_value(c: u8) -> Option<int> {
    if 'A' as int <= c <= 'F' as int {
        Some(c - 'A' as int + 10)
    } else if 'a' as int <= c <= 'f' as int {
        Some(c - 'a' as int + 10)
    } else if '0' as int <= c <= '9' as int {
        Some(c - '0' as int)
    } else {
        None
    }
}

/// Whether every byte is a hexadecimal digit.
pub open spec fn all_hex(s: Seq<u8>) -> bool {
    forall|i: int| 0 <= i < s.len() ==> (#[trigger] hex_value(s[i])) is Some
}

/// The bytes that pairs of hexadecimal digits spell.
pub open spec fn hex_bytes(s: Seq<u8>) -> Seq<u8> {
    Seq::new(
        s.len() / 2,
        |i: int| (hex_value(s[2 * i])->0 * 16 + hex_value(s[2 * i + 1])->0) as u8,
    )
}

/// Why a text is not the hexadecimal form of some bytes.
#[derive(Clone, Copy, Debug, PartialEq, Eq, Structural)]
pub enum HexError {
    /// `c` stands at byte `index` and is no digit.
    InvalidHexCharacter { c: char, index: usize },
    /// A digit has no partner.
    OddLength,
    /// The text is not as long as its target.
    InvalidStringLength,
}

/// What decoding the text with UTF-8 form `s` gives: an odd length is refused
/// first, then the first byte that is no digit.
pub open spec fn hex_decoded(s: Seq<u8>, r: Result<Seq<u8>, HexError>) -> bool {
    if s.len() % 2 != 0 {
        r == Err::<Seq<u8>, HexError>(HexError::OddLength)
    } else if all_hex(s) {
        r == Ok::<Seq<u8>, HexError>(hex_bytes(s))
    } else {
        exists|i: int|
            #![trigger s[i]]
            0 <= i < s.len() && all_hex(s.take(i)) && hex_value(s[i]) is None && r == Err::<
                Seq<u8>,
                HexError,
            >(HexError::InvalidHexCharacter { c: s[i] as char, index: i as usize })
    }
}

/// Decoding is a function: a text has one outcome.
pub proof fn hex_decoding_is_unique(
    s: Seq<u8>,
    a: Result<Seq<u8>, HexError>,
    b: Result<Seq<u8>, HexError>,
)
    requires
        hex_decoded(s, a),
        hex_decoded(s, b),
    ensures
        a == b,
{
    if s.len() % 2 == 0 && !all_hex(s) {
        let i = choose|i: int|
            #![trigger s[i]]
            0 <= i < s.len() && all_hex(s.take(i)) && hex_value(s[i]) is None && a == Err::<
                Seq<u8>,
                HexError,
            >(HexError::InvalidHexCharacter { c: s[i] as char, index: i as usize });
        let j = choose|j: int|
            #![trigger s[j]]
            0 <= j < s.len() && all_hex(s.take(j)) && hex_value(s[j]) is None && b == Err::<
                Seq<u8>,
                HexError,
            >(HexError::InvalidHexCharacter { c: s[j] as char, index: j as usize });
        if i < j {
            assert(hex_value(s.take(j)[i]) is Some);
        }
        if j < i {
            assert(hex_value(s.take(i)[j]) is Some);
        }
    }
}

/// Decoding the hexadecimal form of some bytes gives the bytes.
pub proof fn hex_round_trip(s: Seq<u8>)
    ensures
        vstd::utf8::encode_utf8(hex_text(s)).len() == 2 * s.len(),
        all_hex(vstd::utf8::encode_utf8(hex_text(s))),
        hex_bytes(vstd::utf8::encode_utf8(hex_text(s))) == s,
{
    let text = hex_text(s);
    assert(vstd::utf8::is_ascii_chars(text));
    vstd::utf8::is_ascii_chars_encode_utf8(text);
    let coded = vstd::utf8::encode_utf8(text);
    assert(coded =~= Seq::new(text.len(), |i: int| text[i] as u8));
    assert forall|i: int| 0 <= i < coded.len() implies (#[trigger] hex_value(coded[i])) is Some by {
        assert(coded[i] == text[i] as u8);
    }
    assert forall|i: int| 0 <= i < s.len() implies (#[trigger] hex_bytes(coded)[i]) == s[i] by {
        assert(coded[2 * i] == text[2 * i] as u8);
        assert(coded[2 * i + 1] == text[2 * i + 1] as u8);
        assert((2 * i) / 2 == i && (2 * i) % 2 == 0);
        assert((2 * i + 1) / 2 == i && (2 * i + 1) % 2 == 1);
    }
    assert(hex_bytes(coded) =~= s);
}

/// A result with the bytes in it taken by their view.
pub open spec fn result_view<E>(r: Result<Vec<u8>, E>) -> Result<Seq<u8>, E> {
    match r {
        Ok(v) => Ok(v@),
        Err(e) => Err(e),
    }
}

/// `hex::encode`: two lower-case hexadecimal digits for each byte, in order.
#[verifier::external_body]
pub(crate) fn hex_encode(bytes: &[u8]) -> (r: String)
    ensures
        r@ == hex_text(bytes@),
{
    hex::encode(bytes)
}

/// `hex::decode`: the bytes that the digits of either case spell, or why the text
/// spells none: its length in bytes is odd, or else the first byte that is no
/// digit, given as the Latin-1 character of that byte, and its index.
#[verifier::external_body]
pub(crate) fn hex_decode(text: &str) -> (r: Result<Vec<u8>, HexError>)
    ensures
        hex_decoded(vstd::utf8::encode_utf8(text@), result_view(r)),
{
    match hex::decode(text) {
        Ok(bytes) => Ok(bytes),
        Err(hex::FromHexError::InvalidHexCharacter { c, index }) => Err(
            HexError::InvalidHexCharacter { c, index },
        ),
        Err(hex::FromHexError::OddLength) => Err(HexError::OddLength),
        Err(hex::FromHexError::InvalidStringLength) => Err(HexError::InvalidStringLength),
    }
}

} // verus!
