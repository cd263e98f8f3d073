//! Small string utilities that the rest of the crate is built on.
//!
//! Strings are modelled by their characters (`Seq<char>`). The few places
//! that lean on the standard library's Unicode tables give the result a name
//! instead of restating the tables.

use vstd::prelude::*;
use vstd::string::*;
use vstd::utf8::*;

verus! {

/// The lowercase form of a string as the standard library computes it
/// (Unicode `Lowercase` mapping, including its context-sensitive rules).
pub uninterp spec fn lowercase_of(s: Seq<char>) -> Seq<char>;

/// A string without its leading and trailing Unicode white space, as the
/// standard library computes it.
pub uninterp spec fn trimmed_of(s: Seq<char>) -> Seq<char>;

/// What lossy UTF-8 decoding makes of a byte string: well-formed parts are
/// kept, every ill-formed part becomes U+FFFD.
pub uninterp spec fn lossy_utf8_of(bytes: Seq<u8>) -> Seq<char>;

/// The contents of a list of strings.
pub open spec fn string_views(v: Seq<String>) -> Seq<Seq<char>> {
    Seq::new(v.len(), |i: int| v[i]@)
}

/// Calls `str::to_lowercase`. Trusted: the result is the standard library's
/// lowercase mapping of the argument, which this crate does not restate.
#[verifier::external_body]
pub(crate) fn to_lowercase(s: &str) -> (r: String)
    ensures
        r@ == lowercase_of(s@),
{
    s.to_lowercase()
}

/// Calls `str::trim`. Trusted: the result is the argument with leading and
/// trailing white space removed, by the standard library's definition of
/// white space.
#[verifier::external_body]
pub(crate) fn trim(s: &str) -> (r: &str)
    ensures
        r@ == trimmed_of(s@),
{
    s.trim()
}

/// Calls `String::from_utf8_lossy`. Trusted: the result is the lossy decoding
/// of the bytes.
#[verifier::external_body]
pub(crate) fn from_utf8_lossy(bytes: &[u8]) -> (r: String)
    ensures
        r@ == lossy_utf8_of(bytes@),
{
    String::from_utf8_lossy(bytes).into_owned()
}

/// Calls `String::push`. Trusted: the character is appended and nothing else
/// changes.
#[verifier::external_body]
pub(crate) fn push_char(s: &mut String, c: char)
    ensures
        final(s)@ == old(s)@.push(c),
{
    s.push(c)
}

/// Equality of two string slices, decided on their UTF-8 bytes.
pub fn str_eq(a: &str, b: &str) -> (r: bool)
    ensures
        r == (a@ == b@),
{
    broadcast use encode_utf8_decode_utf8;

    let x = a.as_bytes();
    let y = b.as_bytes();
    if x.len() != y.len() {
        return false;
    }
    let mut i: usize = 0;
    while i < x.len()
        invariant
            x@ == encode_utf8(a@),
            y@ == encode_utf8(b@),
            x.len() == y.len(),
            i <= x.len(),
            x@.take(i as int) == y@.take(i as int),
        decreases x.len() - i,
    {
        if x[i] != y[i] {
            assert(a@ != b@);
            return false;
        }
        assert(x@.take(i + 1) =~= x@.take(i as int).push(x@[i as int]));
        assert(y@.take(i + 1) =~= y@.take(i as int).push(y@[i as int]));
        i = i + 1;
    }
    assert(x@ =~= x@.take(i as int));
    assert(y@ =~= y@.take(i as int));
    assert(decode_utf8(encode_utf8(a@)) == decode_utf8(encode_utf8(b@)));
    true
}

/// The characters of a string.
pub fn chars_of(s: &str) -> (v: Vec<char>)
    ensures
        v@ == s@,
{
    broadcast use vstd::string::group_string_axioms;

    let mut v: Vec<char> = Vec::new();
    for c in it: s.chars()
        invariant
            it.seq() == s@,
            v@ == it.seq().take(it.index()),
    {
        v.push(c);
    }
    v
}

/// The string made of the characters `chars[from..to]`.
pub fn string_of(chars: &Vec<char>, from: usize, to: usize) -> (s: String)
    requires
        from <= to <= chars.len(),
    ensures
        s@ == chars@.subrange(from as int, to as int),
{
    let mut s = String::new();
    let mut i: usize = from;
    while i < to
        invariant
            from <= i <= to <= chars.len(),
            s@ == chars@.subrange(from as int, i as int),
        decreases to - i,
    {
        push_char(&mut s, chars[i]);
        assert(chars@.subrange(from as int, i + 1) =~= chars@.subrange(from as int, i as int).push(
            chars@[i as int],
        ));
        i = i + 1;
    }
    s
}

/// The character that writes the digit `d`.
pub open spec fn digit_char(d: int) -> char {
    if d == 0 {
        '0'
    } else if d == 1 {
        '1'
    } else if d == 2 {
        '2'
    } else if d == 3 {
        '3'
    } else if d == 4 {
        '4'
    } else if d == 5 {
        '5'
    } else if d == 6 {
        '6'
    } else if d == 7 {
        '7'
    } else if d == 8 {
        '8'
    } else {
        '9'
    }
}

/// The decimal numeral of `n`, without sign or leading zeros.
pub open spec fn decimal_of(n: nat) -> Seq<char>
    decreases n,
{
    if n < 10 {
        seq![digit_char(n as int)]
    } else {
        decimal_of(n / 10).push(digit_char((n % 10) as int))
    }
}

fn digit(d: u64) -> (c: char)
    requires
        d < 10,
    ensures
        c == digit_char(d as int),
{
    match d {
        0 => '0',
        1 => '1',
        2 => '2',
        3 => '3',
        4 => '4',
        5 => '5',
        6 => '6',
        7 => '7',
        8 => '8',
        _ => '9',
    }
}

/// Writes `n` in decimal.
pub fn decimal(n: u64) -> (s: String)
    ensures
        s@ == decimal_of(n as nat),
    decreases n,
{
    if n < 10 {
        let mut s = String::new();
        push_char(&mut s, digit(n));
        assert(s@ =~= seq![digit_char(n as int)]);
        s
    } else {
        let mut s = decimal(n / 10);
        push_char(&mut s, digit(n % 10));
        s
    }
}

/// A numeral is never empty and holds digits only.
pub proof fn lemma_decimal_shape(n: nat)
    ensures
        decimal_of(n).len() >= 1,
        forall|i: int|
            0 <= i < decimal_of(n).len() ==> '0' <= #[trigger] decimal_of(n)[i] <= '9',
    decreases n,
{
    if n >= 10 {
        lemma_decimal_shape(n / 10);
    }
}

/// Different numbers have different numerals.
pub proof fn lemma_decimal_injective(a: nat, b: nat)
    requires
        decimal_of(a) == decimal_of(b),
    ensures
        a == b,
    decreases a,
{
    lemma_decimal_shape(a);
    lemma_decimal_shape(b);
    if a < 10 && b < 10 {
        assert(decimal_of(a)[0] == digit_char(a as int));
        assert(decimal_of(b)[0] == digit_char(b as int));
    } else if a >= 10 && b >= 10 {
        let x = decimal_of(a / 10);
        let y = decimal_of(b / 10);
        let da = digit_char((a % 10) as int);
        let db = digit_char((b % 10) as int);
        assert(x.push(da).drop_last() =~= x);
        assert(y.push(db).drop_last() =~= y);
        assert(x.push(da).last() == da);
        assert(y.push(db).last() == db);
        assert(x == y);
        assert(a % 10 == b % 10);
        lemma_decimal_injective(a / 10, b / 10);
    } else if a < 10 {
        lemma_decimal_shape(b / 10);
        assert(decimal_of(b).len() >= 2);
    } else {
        lemma_decimal_shape(a / 10);
        assert(decimal_of(a).len() >= 2);
    }
}

/// The index up to which `bytes` can be kept when at most `limit` bytes are
/// wanted and no character may be cut: the largest character boundary that
/// is not beyond `limit`.
pub open spec fn boundary_at_most(bytes: Seq<u8>, limit: int) -> int
    decreases limit,
{
    if limit <= 0 {
        0
    } else if limit >= bytes.len() {
        bytes.len() as int
    } else if is_char_boundary(bytes, limit) {
        limit
    } else {
        boundary_at_most(bytes, limit - 1)
    }
}

/// The longest prefix of `s` that takes at most `limit` bytes in UTF-8.
pub open spec fn prefix_within(s: Seq<char>, limit: int) -> Seq<char> {
    decode_utf8(encode_utf8(s).take(boundary_at_most(encode_utf8(s), limit)))
}

/// Cuts `s` down to at most `limit` bytes without splitting a character.
pub fn truncate_bytes(s: &str, limit: usize) -> (r: &str)
    ensures
        r@ == prefix_within(s@, limit as int),
        r.spec_bytes() == s.spec_bytes().take(boundary_at_most(s.spec_bytes(), limit as int)),
        r.spec_bytes().len() <= limit,
{
    broadcast use encode_utf8_decode_utf8, encode_utf8_valid_utf8;

    let len = s.as_bytes().len();
    if limit >= len {
        proof {
            assert(boundary_at_most(s.spec_bytes(), limit as int) == len) by {
                if limit == 0 {
                }
            }
            assert(s.spec_bytes().take(len as int) =~= s.spec_bytes());
        }
        return s;
    }
    let mut cut: usize = limit;
    while cut > 0 && !s.is_char_boundary(cut)
        invariant
            cut <= limit < len,
            len == s.spec_bytes().len(),
            boundary_at_most(s.spec_bytes(), limit as int) == boundary_at_most(
                s.spec_bytes(),
                cut as int,
            ),
        decreases cut,
    {
        cut = cut - 1;
    }
    proof {
        is_char_boundary_start_end_of_seq(s.spec_bytes());
        assert(boundary_at_most(s.spec_bytes(), cut as int) == cut);
    }
    let (head, _tail) = s.split_at(cut);
    head
}

/// A text of plain ASCII that is no longer than the limit is kept whole.
pub proof fn lemma_short_ascii_is_kept(s: Seq<char>, limit: int)
    requires
        is_ascii_chars(s),
        s.len() <= limit,
    ensures
        prefix_within(s, limit) == s,
{
    broadcast use encode_utf8_decode_utf8;

    is_ascii_chars_encode_utf8(s);
    let bytes = encode_utf8(s);
    assert(boundary_at_most(bytes, limit) == bytes.len());
    assert(bytes.take(bytes.len() as int) =~= bytes);
}

} // verus!
