//! Low-level helpers for the RFC 1035 wire format: network-byte-order
//! integers, ASCII label bytes, and the conversions between byte and
//! character sequences that the codec contracts are stated over.

use vstd::prelude::*;

verus! {

/// The 16-bit big-endian integer found at offset `i` of `d`.
pub open spec fn be16(d: Seq<u8>, i: int) -> u16
    recommends
        0 <= i,
        i + 2 <= d.len(),
{
    ((d[i] as int) * 256 + (d[i + 1] as int)) as u16
}

/// The two bytes of `x` in network byte order.
pub open spec fn u16_bytes(x: u16) -> Seq<u8> {
    seq![(x / 256) as u8, (x % 256) as u8]
}

/// The four bytes of `x` in network byte order.
pub open spec fn u32_bytes(x: u32) -> Seq<u8> {
    seq![
        (x / 0x1000000) as u8,
        ((x / 0x10000) % 256) as u8,
        ((x / 256) % 256) as u8,
        (x % 256) as u8,
    ]
}

/// Appends `x` to `out` in network byte order.
pub fn push_u16(out: &mut Vec<u8>, x: u16)
    ensures
        final(out)@ == old(out)@ + u16_bytes(x),
{
    out.push((x / 256) as u8);
    out.push((x % 256) as u8);
    assert(final(out)@ =~= old(out)@ + u16_bytes(x));
}

/// Appends `x` to `out` in network byte order.
pub fn push_u32(out: &mut Vec<u8>, x: u32)
    ensures
        final(out)@ == old(out)@ + u32_bytes(x),
{
    out.push((x / 0x1000000) as u8);
    out.push(((x / 0x10000) % 256) as u8);
    out.push(((x / 256) % 256) as u8);
    out.push((x % 256) as u8);
    assert(final(out)@ =~= old(out)@ + u32_bytes(x));
}

/// Reads the 16-bit big-endian integer at offset `i` of `d`.
pub fn read_u16(d: &[u8], i: usize) -> (r: u16)
    requires
        i + 2 <= d@.len(),
    ensures
        r == be16(d@, i as int),
{
    (d[i] as u16) * 256 + (d[i + 1] as u16)
}

/// The characters that the bytes `b` stand for, one per byte.
pub open spec fn chars_of(b: Seq<u8>) -> Seq<char> {
    Seq::new(b.len(), |i: int| b[i] as char)
}

/// The bytes that the characters `s` stand for, one per character.
pub open spec fn bytes_of_chars(s: Seq<char>) -> Seq<u8> {
    Seq::new(s.len(), |i: int| s[i] as u8)
}

/// A sequence of ASCII bytes survives the round trip through characters.
pub proof fn lemma_ascii_round_trip(b: Seq<u8>)
    requires
        forall|i: int| 0 <= i < b.len() ==> b[i] < 128,
    ensures
        bytes_of_chars(chars_of(b)) =~= b,
{
}

pub open spec fn is_ascii_letter(b: u8) -> bool {
    (65 <= b <= 90) || (97 <= b <= 122)
}

pub open spec fn is_ascii_digit(b: u8) -> bool {
    48 <= b <= 57
}

/// The byte of the ASCII hyphen `-`.
pub open spec fn hyphen() -> u8 {
    45
}

/// A wire-format label: one to 63 bytes, starting with a letter, otherwise
/// letters, digits and single hyphens that neither start nor end it.
pub open spec fn valid_label_bytes(b: Seq<u8>) -> bool {
    &&& 1 <= b.len() <= 63
    &&& is_ascii_letter(b[0])
    &&& forall|i: int|
        0 <= i < b.len() ==> (is_ascii_letter(b[i]) || is_ascii_digit(b[i]) || b[i] == hyphen())
    &&& b[b.len() - 1] != hyphen()
    &&& forall|i: int| 0 <= i < b.len() - 1 ==> !(#[trigger] b[i] == hyphen() && b[i + 1] == hyphen())
}

/// Every byte of a valid label is ASCII.
pub proof fn lemma_valid_label_ascii(b: Seq<u8>)
    requires
        valid_label_bytes(b),
    ensures
        forall|i: int| 0 <= i < b.len() ==> b[i] < 128,
{
}

/// `c` with an ASCII capital turned lower-case; anything else unchanged.
/// Name matching in the store is insensitive to ASCII case.
pub open spec fn fold_char(c: char) -> char {
    if 'A' <= c && c <= 'Z' {
        (((c as u8) + 32) as char)
    } else {
        c
    }
}

/// `s` with every ASCII capital turned lower-case.
pub open spec fn fold(s: Seq<char>) -> Seq<char> {
    Seq::new(s.len(), |i: int| fold_char(s[i]))
}

/// The ASCII-lower-cased `c`.
pub fn to_folded(c: char) -> (r: char)
    ensures
        r == fold_char(c),
{
    if 'A' <= c && c <= 'Z' {
        ((c as u8) + 32) as char
    } else {
        c
    }
}

pub open spec fn is_letter_char(c: char) -> bool {
    ('A' <= c && c <= 'Z') || ('a' <= c && c <= 'z')
}

pub open spec fn is_digit_char(c: char) -> bool {
    '0' <= c && c <= '9'
}

/// A label as text: one to 63 characters, starting with a letter, otherwise
/// letters, digits and single hyphens that neither start nor end it.
pub open spec fn valid_label_chars(l: Seq<char>) -> bool {
    &&& 1 <= l.len() <= 63
    &&& is_letter_char(l[0])
    &&& forall|i: int|
        0 <= i < l.len() ==> (is_letter_char(l[i]) || is_digit_char(l[i]) || l[i] == '-')
    &&& l[l.len() - 1] != '-'
    &&& forall|i: int| 0 <= i < l.len() - 1 ==> !(#[trigger] l[i] == '-' && l[i + 1] == '-')
}

/// A valid byte-level label reads back as a valid text label.
pub proof fn lemma_label_bytes_to_chars(b: Seq<u8>)
    requires
        valid_label_bytes(b),
    ensures
        valid_label_chars(chars_of(b)),
        bytes_of_chars(chars_of(b)) =~= b,
{
    assert forall|i: int| 0 <= i < b.len() implies b[i] < 128 by {}
}

/// A valid text label writes out as a valid byte-level label.
pub proof fn lemma_label_chars_to_bytes(l: Seq<char>)
    requires
        valid_label_chars(l),
    ensures
        valid_label_bytes(bytes_of_chars(l)),
        chars_of(bytes_of_chars(l)) =~= l,
{
    assert forall|i: int| 0 <= i < l.len() implies (l[i] as int) < 128 by {}
}

/// The wire form of one label: its length byte followed by its bytes.
pub open spec fn label_wire(l: Seq<char>) -> Seq<u8> {
    seq![l.len() as u8] + bytes_of_chars(l)
}

/// The wire form of a label sequence: each label in order, then a zero byte.
pub open spec fn labels_wire(ls: Seq<Seq<char>>) -> Seq<u8>
    decreases ls.len(),
{
    if ls.len() == 0 {
        seq![0u8]
    } else {
        label_wire(ls[0]) + labels_wire(ls.drop_first())
    }
}

/// The wire bytes of the labels themselves, without the closing zero byte.
pub open spec fn labels_body(ls: Seq<Seq<char>>) -> Seq<u8>
    decreases ls.len(),
{
    if ls.len() == 0 {
        Seq::empty()
    } else {
        label_wire(ls[0]) + labels_body(ls.drop_first())
    }
}

/// A label sequence on the wire is its body followed by the zero byte.
pub proof fn lemma_labels_wire_body(ls: Seq<Seq<char>>)
    ensures
        labels_wire(ls) =~= labels_body(ls) + seq![0u8],
    decreases ls.len(),
{
    if ls.len() > 0 {
        lemma_labels_wire_body(ls.drop_first());
    }
}

/// Appending one label to a sequence appends its wire form to the body.
pub proof fn lemma_labels_body_push(ls: Seq<Seq<char>>, l: Seq<char>)
    ensures
        labels_body(ls.push(l)) =~= labels_body(ls) + label_wire(l),
    decreases ls.len(),
{
    if ls.len() == 0 {
        assert(ls.push(l).drop_first() =~= Seq::<Seq<char>>::empty());
        assert(ls.push(l)[0] == l);
        assert(labels_body(Seq::<Seq<char>>::empty()) =~= Seq::<u8>::empty());
        assert(labels_body(ls.push(l)) =~= label_wire(l));
        assert(labels_body(ls) + label_wire(l) =~= label_wire(l));
    } else {
        assert(ls.push(l).drop_first() =~= ls.drop_first().push(l));
        lemma_labels_body_push(ls.drop_first(), l);
        assert(ls.push(l)[0] == ls[0]);
        assert(labels_body(ls.push(l)) == label_wire(ls[0]) + labels_body(ls.drop_first().push(l)));
        assert(labels_body(ls.push(l)) =~= (label_wire(ls[0]) + labels_body(ls.drop_first()))
            + label_wire(l));
    }
}

/// The labels joined by dots: the text form of a domain name.
pub open spec fn join_labels(ls: Seq<Seq<char>>) -> Seq<char>
    decreases ls.len(),
{
    if ls.len() == 0 {
        Seq::empty()
    } else if ls.len() == 1 {
        ls[0]
    } else {
        ls[0] + seq!['.'] + join_labels(ls.drop_first())
    }
}

/// The index of the first dot in `s`, or `s.len()` if there is none.
pub open spec fn first_dot(s: Seq<char>) -> int
    decreases s.len(),
{
    if s.len() == 0 {
        0
    } else if s[0] == '.' {
        0
    } else {
        1 + first_dot(s.drop_first())
    }
}

/// A scan that stopped at `k` found the first dot.
pub proof fn lemma_first_dot_value(s: Seq<char>, k: int)
    requires
        0 <= k <= s.len(),
        forall|j: int| 0 <= j < k ==> s[j] != '.',
        k < s.len() ==> s[k] == '.',
    ensures
        first_dot(s) == k,
    decreases s.len(),
{
    if s.len() > 0 && s[0] != '.' {
        lemma_first_dot_value(s.drop_first(), k - 1);
    }
}

/// The wire form of a dotted name: each dot-separated chunk written as its
/// length byte and its bytes, then a zero byte. This is how the store's
/// names, which live as dotted text, go on the wire inside SOA records.
pub open spec fn domain_wire(s: Seq<char>) -> Seq<u8>
    decreases s.len(),
{
    let d = first_dot(s);
    if d < 0 || d >= s.len() {
        seq![s.len() as u8] + bytes_of_chars(s) + seq![0u8]
    } else {
        seq![d as u8] + bytes_of_chars(s.take(d)) + domain_wire(s.skip(d + 1))
    }
}

/// Joining one more label appends a dot (when anything precedes it) and the
/// label's text.
pub proof fn lemma_join_labels_push(ls: Seq<Seq<char>>, l: Seq<char>)
    ensures
        join_labels(ls.push(l)) =~= if ls.len() == 0 {
            l
        } else {
            join_labels(ls) + seq!['.'] + l
        },
    decreases ls.len(),
{
    if ls.len() == 0 {
        assert(ls.push(l)[0] == l);
    } else if ls.len() == 1 {
        assert(ls.push(l)[0] == ls[0]);
        assert(ls.push(l).drop_first() =~= seq![l]);
        assert(join_labels(seq![l]) == l);
    } else {
        assert(ls.push(l)[0] == ls[0]);
        assert(ls.push(l).drop_first() =~= ls.drop_first().push(l));
        lemma_join_labels_push(ls.drop_first(), l);
        assert(join_labels(ls.push(l)) == ls[0] + seq!['.'] + join_labels(ls.drop_first().push(l)));
    }
}

/// Relies on `String::from_utf8`: ASCII bytes decode to the string whose
/// characters are exactly those bytes, since UTF-8 extends ASCII.
#[verifier::external_body]
pub fn ascii_to_string(b: &[u8]) -> (r: String)
    requires
        forall|i: int| 0 <= i < b@.len() ==> b@[i] < 128,
    ensures
        r@ == chars_of(b@),
{
    String::from_utf8(b.to_vec()).unwrap()
}

} // verus!
