//! The wire parser: bytes in, parsed header, labels, question or whole
//! standard query out. The grammar is stated once, as spec functions over
//! byte sequences, and every executable function is proved against it.
//!
//! Truncated input is `Incomplete` (the codec keeps waiting for the rest of
//! the datagram); malformed input is `Parser`; a parsable header whose opcode
//! is not a standard query is `NoStdQuery`, carrying the header and the rest
//! of the datagram so the id and flags can be echoed.

use vstd::prelude::*;

use crate::dns::Header;
use crate::dns::OpCode;
use crate::dns::Question;
use crate::dns::QueryClass;
use crate::dns::QueryType;
use crate::dns::StandardQuery;
use crate::dns::opcode_canonical;
use crate::dns::parsed_header;
use crate::dns::retained_header;
use crate::dns::qclass_of;
use crate::dns::qtype_of;
use crate::wire::ascii_to_string;
use crate::wire::be16;
use crate::wire::bytes_of_chars;
use crate::wire::chars_of;
use crate::wire::join_labels;
use crate::wire::lemma_join_labels_push;
use crate::wire::read_u16;
use crate::wire::valid_label_bytes;

verus! {

/// Why a parse did not produce a standard query.
#[derive(Debug, Clone, PartialEq)]
pub enum Error {
    /// The header parsed but its opcode asks for something this server does
    /// not implement; the header and the unread rest of the datagram are
    /// kept so a reply can echo them.
    NoStdQuery(Header, Vec<u8>),
    /// The bytes so far are a prefix of a well-formed message: not a
    /// failure, more input may complete it.
    Incomplete,
    /// The bytes cannot be a well-formed message.
    Parser,
}

/// The outcome of reading a label list at some offset.
pub enum LabelsParse {
    /// The labels read, and the offset just past the closing zero byte.
    Done { labels: Seq<Seq<u8>>, end: int },
    Incomplete,
    Error,
}

/// Reads length-prefixed labels at offset `i` of `d` until a zero byte.
/// A length byte above 63 (in particular one with its top two bits set,
/// which would announce a compression pointer) is an error; running out of
/// bytes is `Incomplete`.
pub open spec fn parse_labels_spec(d: Seq<u8>, i: int) -> LabelsParse
    decreases d.len() - i,
{
    if i < 0 || i >= d.len() {
        LabelsParse::Incomplete
    } else if d[i] == 0 {
        LabelsParse::Done { labels: Seq::empty(), end: i + 1 }
    } else if d[i] > 63 {
        LabelsParse::Error
    } else if i + 1 + d[i] > d.len() {
        LabelsParse::Incomplete
    } else if !valid_label_bytes(d.subrange(i + 1, i + 1 + d[i])) {
        LabelsParse::Error
    } else {
        match parse_labels_spec(d, i + 1 + d[i]) {
            LabelsParse::Done { labels, end } => LabelsParse::Done {
                labels: seq![d.subrange(i + 1, i + 1 + d[i])] + labels,
                end,
            },
            LabelsParse::Incomplete => LabelsParse::Incomplete,
            LabelsParse::Error => LabelsParse::Error,
        }
    }
}

/// The outcome of reading a question at some offset.
pub enum QuestionParse {
    /// The labels, the raw type and class words, and the offset just past
    /// the class word.
    Done { labels: Seq<Seq<u8>>, qtype: u16, qclass: u16, end: int },
    Incomplete,
    Error,
}

/// Reads a question at offset `i` of `d`: labels, then the type and class
/// words. A class word outside one to four is an error.
pub open spec fn parse_question_spec(d: Seq<u8>, i: int) -> QuestionParse {
    match parse_labels_spec(d, i) {
        LabelsParse::Done { labels, end } => if end + 4 > d.len() {
            QuestionParse::Incomplete
        } else if qclass_of(be16(d, end + 2)) is None {
            QuestionParse::Error
        } else {
            QuestionParse::Done { labels, qtype: be16(d, end), qclass: be16(d, end + 2), end: end + 4 }
        },
        LabelsParse::Incomplete => QuestionParse::Incomplete,
        LabelsParse::Error => QuestionParse::Error,
    }
}

/// The offset just past a question that parses at offset `i`; zero when it
/// does not parse.
pub open spec fn question_end_at(d: Seq<u8>, i: int) -> int {
    match parse_question_spec(d, i) {
        QuestionParse::Done { end, .. } => end,
        _ => 0,
    }
}

/// The text of each byte-level label.
pub open spec fn labels_chars(ls: Seq<Seq<u8>>) -> Seq<Seq<char>> {
    Seq::new(ls.len(), |j: int| chars_of(ls[j]))
}

/// `q` is the question encoded at offset `i` of `d`, ending at `end`: its
/// labels are the parsed ones as text, its name joins them with dots, and
/// its type and class stand for the parsed words.
pub open spec fn question_matches(q: Question, d: Seq<u8>, i: int, end: int) -> bool {
    &&& parse_question_spec(d, i) matches QuestionParse::Done { labels, qtype, qclass, end: e }
        && e == end
        && q.labels.deep_view() == labels_chars(labels)
        && q.name@ == join_labels(labels_chars(labels))
        && q.query_type == qtype_of(qtype)
        && Some(q.query_class) == qclass_of(qclass)
}

/// Reads the twelve-byte header at the start of `input`, keeping only what
/// the server retains of a request: the authoritative-answer bit and the
/// section counts other than the question count read as their defaults.
pub fn dns_header(input: &[u8]) -> (r: Result<(usize, Header), Error>)
    ensures
        match r {
            Ok((n, h)) => input@.len() >= 12 && n == 12 && h == retained_header(input@)
                && opcode_canonical(h.opcode),
            Err(e) => e == Error::Incomplete && input@.len() < 12,
        },
{
    if input.len() < 12 {
        return Err(Error::Incomplete);
    }
    let id = read_u16(input, 0);
    let hi = input[2];
    let lo = input[3];
    let header = Header {
        id,
        opcode: OpCode::from_u8((hi / 8) % 16),
        authoritative_answer: false,
        truncated: (hi / 2) % 2 == 1,
        recursion_desired: hi % 2 == 1,
        recursion_available: (lo / 128) % 2 == 1,
        response_code: crate::dns::ResponseCode::from_u8(lo % 16),
        qd_count: read_u16(input, 4),
        an_count: 0,
        ns_count: 0,
        ar_count: 0,
    };
    Ok((12, header))
}

/// True when `b` is an ASCII letter.
fn is_letter(b: u8) -> (r: bool)
    ensures
        r == crate::wire::is_ascii_letter(b),
{
    (65 <= b && b <= 90) || (97 <= b && b <= 122)
}

/// True when `b` is an ASCII digit.
fn is_digit(b: u8) -> (r: bool)
    ensures
        r == crate::wire::is_ascii_digit(b),
{
    48 <= b && b <= 57
}

/// Checks the bytes `d[lo..hi]` against the label rules.
fn check_label_bytes(d: &[u8], lo: usize, hi: usize) -> (ok: bool)
    requires
        lo < hi <= d@.len(),
        hi - lo <= 63,
    ensures
        ok == valid_label_bytes(d@.subrange(lo as int, hi as int)),
{
    let ghost b = d@.subrange(lo as int, hi as int);
    if !is_letter(d[lo]) {
        return false;
    }
    if d[hi - 1] == 45 {
        assert(b[b.len() - 1] == 45);
        return false;
    }
    let mut j: usize = lo;
    while j < hi
        invariant
            lo <= j <= hi <= d@.len(),
            b == d@.subrange(lo as int, hi as int),
            forall|t: int|
                0 <= t < j - lo ==> (crate::wire::is_ascii_letter(#[trigger] b[t])
                    || crate::wire::is_ascii_digit(b[t]) || b[t] == 45),
            forall|t: int| 0 <= t < j - lo - 1 ==> !(#[trigger] b[t] == 45 && b[t + 1] == 45),
        decreases hi - j,
    {
        let c = d[j];
        assert(b[j - lo] == c);
        if !(is_letter(c) || is_digit(c) || c == 45) {
            return false;
        }
        if c == 45 && j > lo && d[j - 1] == 45 {
            assert(b[j - lo - 1] == 45 && b[j - lo] == 45);
            return false;
        }
        j += 1;
    }
    assert(b[0] == d@[lo as int]);
    assert(b[b.len() - 1] == d@[hi - 1]);
    true
}

/// The byte-level labels that the strings `out` stand for.
pub open spec fn vec_labels_bytes(out: Seq<Seq<char>>) -> Seq<Seq<u8>> {
    Seq::new(out.len(), |j: int| bytes_of_chars(out[j]))
}

/// Reads the label list at offset `start` of `d`, producing the labels as
/// strings and the offset just past the closing zero byte.
fn parse_labels_at(d: &[u8], start: usize) -> (r: Result<(usize, Vec<String>), Error>)
    requires
        start <= d@.len(),
    ensures
        match r {
            Ok((end, ls)) => {
                &&& parse_labels_spec(d@, start as int) matches LabelsParse::Done {
                    labels,
                    end: e,
                } && e == end && ls.deep_view() == labels_chars(labels)
                &&& start < end <= d@.len()
            },
            Err(e) => match e {
                Error::Incomplete => parse_labels_spec(d@, start as int) is Incomplete,
                Error::Parser => parse_labels_spec(d@, start as int) is Error,
                _ => false,
            },
        },
{
    let mut out: Vec<String> = Vec::new();
    let mut i: usize = start;
    loop
        invariant
            start <= i <= d@.len(),
            forall|j: int|
                0 <= j < out.deep_view().len() ==> crate::wire::valid_label_chars(
                    #[trigger] out.deep_view()[j],
                ),
            match parse_labels_spec(d@, i as int) {
                LabelsParse::Done { labels, end } => parse_labels_spec(d@, start as int)
                    == (LabelsParse::Done {
                    labels: vec_labels_bytes(out.deep_view()) + labels,
                    end,
                }),
                LabelsParse::Incomplete => parse_labels_spec(d@, start as int) is Incomplete,
                LabelsParse::Error => parse_labels_spec(d@, start as int) is Error,
            },
        decreases d@.len() - i,
    {
        if i >= d.len() {
            return Err(Error::Incomplete);
        }
        let len = d[i];
        if len == 0 {
            proof {
                let spec_here = parse_labels_spec(d@, i as int);
                assert(spec_here matches LabelsParse::Done { labels, end } && labels
                    =~= Seq::<Seq<u8>>::empty() && end == i + 1);
                assert(vec_labels_bytes(out.deep_view()) + Seq::<Seq<u8>>::empty()
                    =~= vec_labels_bytes(out.deep_view()));
                assert forall|j: int| 0 <= j < out.deep_view().len() implies #[trigger] labels_chars(
                    vec_labels_bytes(out.deep_view()),
                )[j] == out.deep_view()[j] by {
                    let l = out.deep_view()[j];
                    crate::wire::lemma_label_chars_to_bytes(l);
                    assert(labels_chars(vec_labels_bytes(out.deep_view()))[j] == chars_of(
                        bytes_of_chars(l),
                    ));
                }
                assert(labels_chars(vec_labels_bytes(out.deep_view())) =~= out.deep_view());
            }
            return Ok((i + 1, out));
        }
        if len > 63 {
            return Err(Error::Parser);
        }
        if (len as usize) > d.len() - (i + 1) {
            return Err(Error::Incomplete);
        }
        let next = i + 1 + (len as usize);
        if !check_label_bytes(d, i + 1, next) {
            return Err(Error::Parser);
        }
        let ghost content = d@.subrange(i + 1, next as int);
        proof {
            crate::wire::lemma_valid_label_ascii(content);
        }
        let label = ascii_to_string(vstd::slice::slice_subrange(d, i + 1, next));
        let ghost old_deep = out.deep_view();
        out.push(label);
        proof {
            let old_bytes = vec_labels_bytes(old_deep);
            assert(out.deep_view() =~= old_deep.push(label@));
            crate::wire::lemma_label_bytes_to_chars(content);
            assert(crate::wire::valid_label_chars(label@));
            assert(vec_labels_bytes(out.deep_view()) =~= old_bytes + seq![content]) by {
                crate::wire::lemma_ascii_round_trip(content);
                assert(bytes_of_chars(chars_of(content)) =~= content);
            }
            match parse_labels_spec(d@, next as int) {
                LabelsParse::Done { labels, end } => {
                    assert(parse_labels_spec(d@, i as int) == (LabelsParse::Done {
                        labels: seq![content] + labels,
                        end,
                    }));
                    assert(old_bytes + (seq![content] + labels) =~= (old_bytes + seq![content])
                        + labels);
                },
                _ => {},
            }
        }
        i = next;
    }
}

/// Joins the labels with dots into one name.
pub fn join_name(labels: &Vec<String>) -> (r: String)
    ensures
        r@ == join_labels(labels.deep_view()),
{
    let mut name = String::new();
    let mut i: usize = 0;
    proof {
        reveal_strlit(".");
    }
    while i < labels.len()
        invariant
            0 <= i <= labels@.len(),
            name@ == join_labels(labels.deep_view().take(i as int)),
        decreases labels@.len() - i,
    {
        if i > 0 {
            name.append(".");
            proof {
                reveal_strlit(".");
            }
            assert(name@ =~= join_labels(labels.deep_view().take(i as int)) + seq!['.']);
        }
        name.append(labels[i].as_str());
        proof {
            lemma_join_labels_push(labels.deep_view().take(i as int), labels@[i as int]@);
            assert(labels.deep_view().take(i as int).push(labels@[i as int]@)
                =~= labels.deep_view().take(i + 1));
        }
        i += 1;
    }
    proof {
        assert(labels.deep_view().take(labels@.len() as int) =~= labels.deep_view());
    }
    name
}

/// Reads the question at offset `start` of `d`.
pub fn dns_question_from(d: &[u8], start: usize) -> (r: Result<(usize, Question), Error>)
    requires
        start <= d@.len(),
    ensures
        match r {
            Ok((end, q)) => question_matches(q, d@, start as int, end as int) && start < end
                <= d@.len(),
            Err(e) => match e {
                Error::Incomplete => parse_question_spec(d@, start as int) is Incomplete,
                Error::Parser => parse_question_spec(d@, start as int) is Error,
                _ => false,
            },
        },
{
    let (label_end, labels) = match parse_labels_at(d, start) {
        Ok(v) => v,
        Err(e) => {
            return Err(e);
        },
    };
    if d.len() - label_end < 4 {
        return Err(Error::Incomplete);
    }
    let qtype_word = read_u16(d, label_end);
    let qclass_word = read_u16(d, label_end + 2);
    let query_class = match QueryClass::from_u16(qclass_word) {
        Some(c) => c,
        None => {
            return Err(Error::Parser);
        },
    };
    let name = join_name(&labels);
    let question = Question {
        labels,
        name,
        query_type: QueryType::from_u16(qtype_word),
        query_class,
    };
    Ok((label_end + 4, question))
}

/// Reads one label at the start of `input`: its length byte, then its
/// bytes. The length may not be zero here; the zero byte is the label-list
/// terminator, not a label.
pub fn dns_label(input: &[u8]) -> (r: Result<(usize, String), Error>)
    ensures
        match r {
            Ok((n, s)) => {
                &&& input@.len() >= 1 && 1 <= input@[0] <= 63
                &&& n == 1 + input@[0]
                &&& n <= input@.len()
                &&& valid_label_bytes(input@.subrange(1, n as int))
                &&& s@ == chars_of(input@.subrange(1, n as int))
            },
            Err(e) => match e {
                Error::Incomplete => input@.len() >= 1 && 1 <= input@[0] <= 63 && 1 + input@[0]
                    > input@.len(),
                Error::Parser => input@.len() < 1 || input@[0] == 0 || input@[0] > 63 || (1
                    + input@[0] <= input@.len() && !valid_label_bytes(
                    input@.subrange(1, 1 + input@[0]),
                )),
                _ => false,
            },
        },
{
    if input.len() < 1 {
        return Err(Error::Parser);
    }
    let len = input[0];
    if len == 0 || len > 63 {
        return Err(Error::Parser);
    }
    if 1 + (len as usize) > input.len() {
        return Err(Error::Incomplete);
    }
    let end = 1 + (len as usize);
    if !check_label_bytes(input, 1, end) {
        return Err(Error::Parser);
    }
    proof {
        crate::wire::lemma_valid_label_ascii(input@.subrange(1, end as int));
    }
    Ok((end, ascii_to_string(vstd::slice::slice_subrange(input, 1, end))))
}

/// Reads the label list at the start of `input`.
pub fn dns_labels(input: &[u8]) -> (r: Result<(usize, Vec<String>), Error>)
    ensures
        match r {
            Ok((end, ls)) => parse_labels_spec(input@, 0) matches LabelsParse::Done {
                labels,
                end: e,
            } && e == end && ls.deep_view() == labels_chars(labels),
            Err(e) => match e {
                Error::Incomplete => parse_labels_spec(input@, 0) is Incomplete,
                Error::Parser => parse_labels_spec(input@, 0) is Error,
                _ => false,
            },
        },
{
    parse_labels_at(input, 0)
}

/// Reads the question at the start of `input`.
pub fn dns_question(input: &[u8]) -> (r: Result<(usize, Question), Error>)
    ensures
        match r {
            Ok((end, q)) => question_matches(q, input@, 0, end as int),
            Err(e) => match e {
                Error::Incomplete => parse_question_spec(input@, 0) is Incomplete,
                Error::Parser => parse_question_spec(input@, 0) is Error,
                _ => false,
            },
        },
{
    dns_question_from(input, 0)
}

/// `d` starts with a parsable header whose opcode is a standard query.
pub open spec fn standard_header(d: Seq<u8>) -> bool {
    d.len() >= 12 && parsed_header(d).opcode == OpCode::StandardQuery
}

/// Reads a whole standard query from the start of `input`: the header, then
/// exactly one question. A header with any other opcode is returned under
/// `NoStdQuery` together with the unread rest of the datagram.
pub fn dns_query(input: &[u8]) -> (r: Result<(usize, StandardQuery), Error>)
    ensures
        match r {
            Ok((n, q)) => {
                &&& standard_header(input@)
                &&& q.header == retained_header(input@)
                &&& question_matches(q.question, input@, 12, n as int)
                &&& 12 < n <= input@.len()
            },
            Err(e) => match e {
                Error::NoStdQuery(h, rest) => {
                    &&& input@.len() >= 12 && !standard_header(input@)
                    &&& h == retained_header(input@)
                    &&& rest@ == input@.skip(12)
                },
                Error::Incomplete => input@.len() < 12 || (standard_header(input@)
                    && parse_question_spec(input@, 12) is Incomplete),
                Error::Parser => standard_header(input@) && parse_question_spec(input@, 12)
                    is Error,
            },
        },
{
    let (_, header) = match dns_header(input) {
        Ok(v) => v,
        Err(_) => {
            return Err(Error::Incomplete);
        },
    };
    match header.opcode {
        OpCode::StandardQuery => {},
        _ => {
            let rest = vstd::slice::slice_to_vec(
                vstd::slice::slice_subrange(input, 12, input.len()),
            );
            assert(rest@ =~= input@.skip(12));
            return Err(Error::NoStdQuery(header, rest));
        },
    }
    let (end, question) = match dns_question_from(input, 12) {
        Ok(v) => v,
        Err(e) => {
            return Err(e);
        },
    };
    Ok((end, StandardQuery { header, question }))
}

} // verus!

verus! {

/// A label list that parses ends after its offset and inside the input.
pub proof fn lemma_labels_done_bounds(d: Seq<u8>, i: int)
    requires
        parse_labels_spec(d, i) is Done,
    ensures
        parse_labels_spec(d, i) matches LabelsParse::Done { end, .. } && i < end <= d.len(),
    decreases d.len() - i,
{
    if 0 <= i < d.len() && d[i] != 0 && d[i] <= 63 && i + 1 + d[i] <= d.len() {
        if parse_labels_spec(d, i + 1 + d[i]) is Done {
            lemma_labels_done_bounds(d, i + 1 + d[i]);
        }
    }
}

/// Writing parsed labels back yields exactly the bytes they were read from.
pub proof fn lemma_labels_round_trip(d: Seq<u8>, i: int)
    requires
        parse_labels_spec(d, i) is Done,
    ensures
        parse_labels_spec(d, i) matches LabelsParse::Done { labels, end } && crate::wire::labels_wire(
            labels_chars(labels),
        ) =~= d.subrange(i, end),
    decreases d.len() - i,
{
    lemma_labels_done_bounds(d, i);
    let r = parse_labels_spec(d, i);
    if d[i] == 0 {
        assert(r matches LabelsParse::Done { labels, end } && labels =~= Seq::<Seq<u8>>::empty()
            && end == i + 1);
        assert(labels_chars(Seq::<Seq<u8>>::empty()) =~= Seq::<Seq<char>>::empty());
        assert(crate::wire::labels_wire(Seq::<Seq<char>>::empty()) =~= seq![0u8]);
        assert(d.subrange(i, i + 1) =~= seq![d[i]]);
    } else {
        let len = d[i] as int;
        let content = d.subrange(i + 1, i + 1 + len);
        lemma_labels_done_bounds(d, i + 1 + len);
        lemma_labels_round_trip(d, i + 1 + len);
        let tail = parse_labels_spec(d, i + 1 + len);
        assert(tail is Done);
        let (tls, end) = match tail {
            LabelsParse::Done { labels, end } => (labels, end),
            _ => (Seq::empty(), 0int),
        };
        assert(r == (LabelsParse::Done { labels: seq![content] + tls, end }));
        let all = seq![content] + tls;
        assert(labels_chars(all)[0] == chars_of(content));
        assert(labels_chars(all).drop_first() =~= labels_chars(tls)) by {
            assert forall|j: int| 0 <= j < tls.len() implies labels_chars(all).drop_first()[j]
                == labels_chars(tls)[j] by {
                assert(all[j + 1] == tls[j]);
            }
        }
        assert(crate::wire::labels_wire(labels_chars(all)) == crate::wire::label_wire(
            labels_chars(all)[0],
        ) + crate::wire::labels_wire(labels_chars(all).drop_first()));
        crate::wire::lemma_valid_label_ascii(content);
        crate::wire::lemma_ascii_round_trip(content);
        assert(crate::wire::label_wire(chars_of(content)) =~= seq![len as u8] + content);
        assert(seq![len as u8] =~= seq![d[i]]);
        assert(crate::wire::labels_wire(labels_chars(all)) =~= (seq![d[i]] + content)
            + d.subrange(i + 1 + len, end));
        assert((seq![d[i]] + content) + d.subrange(i + 1 + len, end) =~= d.subrange(i, end));
    }
}

/// Cutting a parsable label list anywhere before its end leaves a prefix
/// that reads as incomplete, never as an error.
pub proof fn lemma_labels_prefix_incomplete(d: Seq<u8>, i: int, k: int)
    requires
        parse_labels_spec(d, i) is Done,
        i <= k,
        parse_labels_spec(d, i) matches LabelsParse::Done { end, .. } && k < end,
    ensures
        parse_labels_spec(d.take(k), i) is Incomplete,
    decreases d.len() - i,
{
    lemma_labels_done_bounds(d, i);
    let p = d.take(k);
    if i >= k {
    } else {
        assert(p[i] == d[i]);
        if d[i] == 0 {
        } else {
            let len = d[i] as int;
            if i + 1 + len > k {
            } else {
                assert(p.subrange(i + 1, i + 1 + len) =~= d.subrange(i + 1, i + 1 + len));
                lemma_labels_done_bounds(d, i + 1 + len);
                lemma_labels_prefix_incomplete(d, i + 1 + len, k);
            }
        }
    }
}

/// A parsable label list reads the same from any prefix that contains it.
pub proof fn lemma_labels_take_agree(d: Seq<u8>, i: int, k: int)
    requires
        parse_labels_spec(d, i) is Done,
        parse_labels_spec(d, i) matches LabelsParse::Done { end, .. } && end <= k <= d.len(),
    ensures
        parse_labels_spec(d.take(k), i) == parse_labels_spec(d, i),
    decreases d.len() - i,
{
    lemma_labels_done_bounds(d, i);
    let p = d.take(k);
    assert(p[i] == d[i]);
    if d[i] == 0 {
        assert(parse_labels_spec(p, i) == (LabelsParse::Done {
            labels: Seq::<Seq<u8>>::empty(),
            end: i + 1,
        }));
    } else {
        let len = d[i] as int;
        lemma_labels_done_bounds(d, i + 1 + len);
        assert(p.subrange(i + 1, i + 1 + len) =~= d.subrange(i + 1, i + 1 + len));
        lemma_labels_take_agree(d, i + 1 + len, k);
    }
}

/// Cutting a parsable question anywhere before its end leaves a prefix that
/// reads as incomplete, never as an error.
pub proof fn lemma_question_prefix_incomplete(d: Seq<u8>, i: int, k: int)
    requires
        parse_question_spec(d, i) is Done,
        i <= k,
        parse_question_spec(d, i) matches QuestionParse::Done { end, .. } && k < end,
    ensures
        parse_question_spec(d.take(k), i) is Incomplete,
{
    let labels = parse_labels_spec(d, i);
    let (l_end, ls) = match labels {
        LabelsParse::Done { end, labels } => (end, labels),
        _ => (0int, Seq::empty()),
    };
    lemma_labels_done_bounds(d, i);
    if k < l_end {
        lemma_labels_prefix_incomplete(d, i, k);
    } else {
        lemma_labels_take_agree(d, i, k);
        assert(l_end + 4 > d.take(k).len());
    }
}

/// A parsable question's end lies inside the input, past its offset.
pub proof fn lemma_question_done_bounds(d: Seq<u8>, i: int)
    requires
        parse_question_spec(d, i) is Done,
    ensures
        parse_question_spec(d, i) matches QuestionParse::Done { end, .. } && i < end <= d.len(),
{
    lemma_labels_done_bounds(d, i);
}

} // verus!
