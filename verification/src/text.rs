//! Comparing and building text.

use vstd::prelude::*;

use crate::bytes;

verus! {

/// Whether two texts are the same.
pub fn same_text(a: &str, b: &str) -> (r: bool)
    ensures
        r == (a@ == b@),
{
    proof {
        vstd::utf8::encode_utf8_decode_utf8(a@);
        vstd::utf8::encode_utf8_decode_utf8(b@);
    }
    bytes::same_bytes(a.as_bytes(), b.as_bytes())
}

/// The decimal digit of `d`.
pub open spec fn digit(d: nat) -> char {
    ('0' as int + d) as char
}

/// `n` in decimal.
pub open spec fn decimal(n: nat) -> Seq<char>
    decreases n,
{
    if n < 10 {
        seq![digit(n)]
    } else {
        decimal(n / 10).push(digit(n % 10))
    }
}

/// `n` in decimal, with a minus sign in front of a negative number.
pub open spec fn signed_decimal(n: int) -> Seq<char> {
    if n < 0 {
        seq!['-'] + decimal((-n) as nat)
    } else {
        decimal(n as nat)
    }
}

/// The one-digit text of `d`.
fn digit_text(d: u64) -> (r: &'static str)
    requires
        d < 10,
    ensures
        r@ == seq![digit(d as nat)],
{
    proof {
        reveal_strlit("0");
        reveal_strlit("1");
        reveal_strlit("2");
        reveal_strlit("3");
        reveal_strlit("4");
        reveal_strlit("5");
        reveal_strlit("6");
        reveal_strlit("7");
        reveal_strlit("8");
        reveal_strlit("9");
    }
    let r = if d == 0 {
        "0"
    } else if d == 1 {
        "1"
    } else if d == 2 {
        "2"
    } else if d == 3 {
        "3"
    } else if d == 4 {
        "4"
    } else if d == 5 {
        "5"
    } else if d == 6 {
        "6"
    } else if d == 7 {
        "7"
    } else if d == 8 {
        "8"
    } else {
        "9"
    };
    assert(r@ =~= seq![digit(d as nat)]);
    r
}

/// `n` in decimal.
pub fn decimal_text(n: u64) -> (r: String)
    ensures
        r@ == decimal(n as nat),
    decreases n,
{
    if n < 10 {
        String::from_str(digit_text(n))
    } else {
        let mut out = decimal_text(n / 10);
        out.append(digit_text(n % 10));
        assert(out@ =~= decimal((n / 10) as nat).push(digit((n % 10) as nat)));
        out
    }
}

/// `n` in decimal, with a minus sign in front of a negative number.
pub fn signed_decimal_text(n: i64) -> (r: String)
    requires
        n > i64::MIN,
    ensures
        r@ == signed_decimal(n as int),
{
    if n < 0 {
        proof {
            reveal_strlit("-");
        }
        assert("-"@ =~= seq!['-']);
        let mut out = String::from_str("-");
        out.append(decimal_text((-n) as u64).as_str());
        out
    } else {
        decimal_text(n as u64)
    }
}

/// Whether a character has Unicode's White_Space property.
pub open spec fn whitespace(c: char) -> bool {
    let v = c as u32;
    ||| 0x9 <= v <= 0xd
    ||| v == 0x20
    ||| v == 0x85
    ||| v == 0xa0
    ||| v == 0x1680
    ||| 0x2000 <= v <= 0x200a
    ||| v == 0x2028
    ||| v == 0x2029
    ||| v == 0x202f
    ||| v == 0x205f
    ||| v == 0x3000
}

/// `char::is_whitespace`: whether a character has Unicode's White_Space property.
#[verifier::external_body]
fn is_whitespace(c: char) -> (r: bool)
    ensures
        r == whitespace(c),
{
    c.is_whitespace()
}

/// `s` from its first character that is not whitespace.
pub open spec fn trimmed_start(s: Seq<char>) -> Seq<char>
    decreases s.len(),
{
    if s.len() > 0 && whitespace(s[0]) {
        trimmed_start(s.drop_first())
    } else {
        s
    }
}

/// `s` up to its last character that is not whitespace.
pub open spec fn trimmed_end(s: Seq<char>) -> Seq<char>
    decreases s.len(),
{
    if s.len() > 0 && whitespace(s.last()) {
        trimmed_end(s.drop_last())
    } else {
        s
    }
}

/// `s` without the whitespace around it.
pub open spec fn trimmed(s: Seq<char>) -> Seq<char> {
    trimmed_end(trimmed_start(s))
}

/// The text without the whitespace around it.
pub fn trim(text: &str) -> (r: String)
    ensures
        r@ == trimmed(text@),
{
    let len: usize = text.unicode_len();
    let mut from: usize = 0;
    assert(text@.skip(0) =~= text@);
    while from < len && is_whitespace(text.get_char(from))
        invariant
            from <= len,
            len == text@.len(),
            trimmed_start(text@) == trimmed_start(text@.skip(from as int)),
        decreases len - from,
    {
        assert(text@.skip(from as int).drop_first() =~= text@.skip(from + 1));
        from = from + 1;
    }
    let ghost rest = text@.skip(from as int);
    let mut to: usize = len;
    assert(rest.take(to - from) =~= rest);
    while to > from && is_whitespace(text.get_char(to - 1))
        invariant
            from <= to <= len,
            len == text@.len(),
            rest == text@.skip(from as int),
            trimmed_end(rest) == trimmed_end(rest.take(to - from)),
        decreases to,
    {
        assert(rest.take(to - from).last() == text@[to - 1]);
        assert(rest.take(to - from).drop_last() =~= rest.take(to - from - 1));
        to = to - 1;
    }
    assert(rest.take(to - from) =~= text@.subrange(from as int, to as int));
    if to > from {
        assert(rest.take(to - from).last() == text@[to - 1]);
    }
    String::from_str(text.substring_char(from, to))
}

/// Trimmed text neither starts nor ends with whitespace, and trimming it again
/// changes nothing.
pub proof fn trimming_is_thorough(s: Seq<char>)
    ensures
        trimmed(s).len() > 0 ==> !whitespace(trimmed(s)[0]) && !whitespace(trimmed(s).last()),
        trimmed(trimmed(s)) == trimmed(s),
{
    trimmed_start_is_thorough(s);
    trimmed_end_is_thorough(trimmed_start(s));
}

proof fn trimmed_start_is_thorough(s: Seq<char>)
    ensures
        trimmed_start(s).len() > 0 ==> !whitespace(trimmed_start(s)[0]),
    decreases s.len(),
{
    if s.len() > 0 && whitespace(s[0]) {
        trimmed_start_is_thorough(s.drop_first());
    }
}

proof fn trimmed_end_is_thorough(s: Seq<char>)
    ensures
        trimmed_end(s).len() > 0 ==> !whitespace(trimmed_end(s).last()),
        trimmed_end(s).len() > 0 ==> trimmed_end(s)[0] == s[0],
    decreases s.len(),
{
    if s.len() > 0 && whitespace(s.last()) {
        trimmed_end_is_thorough(s.drop_last());
    }
}

/// `a` with `b` behind it.
pub fn joined(a: &str, b: &str) -> (r: String)
    ensures
        r@ == a@ + b@,
{
    let mut out = String::from_str(a);
    out.append(b);
    out
}

/// Whether one byte string sorts strictly before another, byte by byte.
pub open spec fn bytes_before(a: Seq<u8>, b: Seq<u8>) -> bool
    decreases a.len(),
{
    if b.len() == 0 {
        false
    } else if a.len() == 0 {
        true
    } else if a[0] != b[0] {
        a[0] < b[0]
    } else {
        bytes_before(a.drop_first(), b.drop_first())
    }
}

/// Whether one text sorts strictly before another, by its UTF-8 form.
pub open spec fn text_before(a: Seq<char>, b: Seq<char>) -> bool {
    bytes_before(vstd::utf8::encode_utf8(a), vstd::utf8::encode_utf8(b))
}

/// Whether one text sorts strictly before another.
pub fn sorts_before(a: &str, b: &str) -> (r: bool)
    ensures
        r == text_before(a@, b@),
{
    let x = a.as_bytes();
    let y = b.as_bytes();
    let mut i: usize = 0;
    assert(x@.skip(0) =~= x@);
    assert(y@.skip(0) =~= y@);
    while i < x.len() && i < y.len()
        invariant
            x@ == vstd::utf8::encode_utf8(a@),
            y@ == vstd::utf8::encode_utf8(b@),
            i <= x@.len(),
            i <= y@.len(),
            bytes_before(x@, y@) == bytes_before(x@.skip(i as int), y@.skip(i as int)),
        decreases x@.len() - i,
    {
        assert(x@.skip(i as int)[0] == x@[i as int]);
        assert(y@.skip(i as int)[0] == y@[i as int]);
        if x[i] != y[i] {
            return x[i] < y[i];
        }
        assert(x@.skip(i as int).drop_first() =~= x@.skip(i + 1));
        assert(y@.skip(i as int).drop_first() =~= y@.skip(i + 1));
        i = i + 1;
    }
    i < y.len()
}

/// A number in decimal is made of digits alone, at least one, and does not start with
/// a zero unless it is zero.
pub proof fn decimals_are_digits(n: nat)
    ensures
        decimal(n).len() > 0,
        forall|i: int| 0 <= i < decimal(n).len() ==> '0' <= #[trigger] decimal(n)[i] <= '9',
        n > 0 ==> decimal(n)[0] != '0',
        n < 10 ==> decimal(n).len() == 1,
    decreases n,
{
    if n >= 10 {
        decimals_are_digits(n / 10);
    }
}

/// Two numbers never share a decimal form.
pub proof fn decimals_tell_numbers_apart(a: nat, b: nat)
    requires
        decimal(a) == decimal(b),
    ensures
        a == b,
    decreases a,
{
    decimals_are_digits(a);
    decimals_are_digits(b);
    assert(decimal(a).last() == decimal(b).last());
    if a >= 10 && b >= 10 {
        assert(decimal(a).drop_last() =~= decimal(a / 10));
        assert(decimal(b).drop_last() =~= decimal(b / 10));
        decimals_tell_numbers_apart(a / 10, b / 10);
        assert(decimal(a).last() == digit(a % 10));
        assert(decimal(b).last() == digit(b % 10));
    } else if a >= 10 {
        decimals_are_digits(a / 10);
        assert(decimal(a).len() >= 2);
    } else if b >= 10 {
        decimals_are_digits(b / 10);
        assert(decimal(b).len() >= 2);
    }
}

/// Byte strings are totally ordered: no one sorts before itself, of two different ones
/// exactly one sorts before the other, and what is cut short sorts first.
pub proof fn byte_strings_are_totally_ordered(a: Seq<u8>, b: Seq<u8>)
    ensures
        !bytes_before(a, a),
        bytes_before(a, b) ==> !bytes_before(b, a),
        !bytes_before(a, b) && !bytes_before(b, a) ==> a == b,
        b.len() > 0 ==> bytes_before(a, a + b),
    decreases a.len(),
{
    if a.len() > 0 && b.len() > 0 {
        byte_strings_are_totally_ordered(a.drop_first(), b.drop_first());
        if a[0] == b[0] && a.drop_first() == b.drop_first() {
            assert(a =~= seq![a[0]] + a.drop_first());
            assert(b =~= seq![b[0]] + b.drop_first());
        }
    }
    if a.len() > 0 {
        byte_strings_are_totally_ordered(a.drop_first(), a.drop_first());
        if b.len() > 0 {
            cut_short_sorts_first(a, b);
        }
    }
    if a.len() == 0 && b.len() == 0 {
        assert(a =~= b);
    }
}

proof fn cut_short_sorts_first(a: Seq<u8>, b: Seq<u8>)
    requires
        b.len() > 0,
    ensures
        bytes_before(a, a + b),
    decreases a.len(),
{
    if a.len() > 0 {
        cut_short_sorts_first(a.drop_first(), b);
        assert((a + b).drop_first() =~= a.drop_first() + b);
        assert((a + b)[0] == a[0]);
    }
}

/// The order of byte strings is transitive.
pub proof fn byte_string_order_is_transitive(a: Seq<u8>, b: Seq<u8>, c: Seq<u8>)
    requires
        bytes_before(a, b),
        bytes_before(b, c),
    ensures
        bytes_before(a, c),
    decreases a.len(),
{
    if a.len() > 0 && b.len() > 0 && c.len() > 0 && a[0] == b[0] && b[0] == c[0] {
        byte_string_order_is_transitive(a.drop_first(), b.drop_first(), c.drop_first());
    }
}

/// Of two different texts exactly one sorts before the other.
pub proof fn texts_are_totally_ordered(a: Seq<char>, b: Seq<char>)
    ensures
        !text_before(a, a),
        text_before(a, b) ==> !text_before(b, a),
        a != b ==> text_before(a, b) || text_before(b, a),
{
    byte_strings_are_totally_ordered(vstd::utf8::encode_utf8(a), vstd::utf8::encode_utf8(b));
    byte_strings_are_totally_ordered(vstd::utf8::encode_utf8(a), vstd::utf8::encode_utf8(a));
    vstd::utf8::encode_utf8_decode_utf8(a);
    vstd::utf8::encode_utf8_decode_utf8(b);
}

/// Trimming takes whitespace away and nothing else: what is left is a stretch of the
/// text, and everything in front of it and behind it is whitespace.
pub proof fn trimming_removes_only_whitespace(s: Seq<char>) -> (range: (int, int))
    ensures
        0 <= range.0 <= range.1 <= s.len(),
        trimmed(s) == s.subrange(range.0, range.1),
        forall|k: int| 0 <= k < range.0 ==> whitespace(#[trigger] s[k]),
        forall|k: int| range.1 <= k < s.len() ==> whitespace(#[trigger] s[k]),
{
    let from = start_is_trimmed(s);
    let rest = trimmed_start(s);
    let left = end_is_trimmed(rest);
    assert(rest.take(left) =~= s.subrange(from, from + left));
    assert forall|k: int| from + left <= k < s.len() implies whitespace(#[trigger] s[k]) by {
        assert(rest[k - from] == s[k]);
    }
    (from, from + left)
}

proof fn start_is_trimmed(s: Seq<char>) -> (from: int)
    ensures
        0 <= from <= s.len(),
        trimmed_start(s) == s.skip(from),
        forall|k: int| 0 <= k < from ==> whitespace(#[trigger] s[k]),
    decreases s.len(),
{
    if s.len() > 0 && whitespace(s[0]) {
        let rest = s.drop_first();
        let from = start_is_trimmed(rest);
        assert(rest.skip(from) =~= s.skip(from + 1));
        assert forall|k: int| 0 <= k < from + 1 implies whitespace(#[trigger] s[k]) by {
            if k > 0 {
                assert(rest[k - 1] == s[k]);
            }
        }
        from + 1
    } else {
        assert(s.skip(0) =~= s);
        0
    }
}

proof fn end_is_trimmed(s: Seq<char>) -> (left: int)
    ensures
        0 <= left <= s.len(),
        trimmed_end(s) == s.take(left),
        forall|k: int| left <= k < s.len() ==> whitespace(#[trigger] s[k]),
    decreases s.len(),
{
    if s.len() > 0 && whitespace(s.last()) {
        let rest = s.drop_last();
        let left = end_is_trimmed(rest);
        assert(rest.take(left) =~= s.take(left));
        assert forall|k: int| left <= k < s.len() implies whitespace(#[trigger] s[k]) by {
            if k < rest.len() {
                assert(rest[k] == s[k]);
            }
        }
        left
    } else {
        assert(s.take(s.len() as int) =~= s);
        s.len() as int
    }
}

} // verus!
