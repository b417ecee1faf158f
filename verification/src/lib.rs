//! An authoritative DNS responder for one zone, together with the decision
//! logic of the HTTP endpoint that updates the records at runtime.
//!
//! The crate is organised around the wire codec (`dns`, `parser`), the
//! record store (`storage`), the resolver (`dns::server`) and the update
//! rules (`web`). The types at the crate root are a second, minimal message
//! surface kept alongside the richer one under `dns`; both write the same
//! wire format and share its spec functions. Everything here is
//! verified; the event loops that move datagrams and HTTP requests live
//! outside the library.

pub mod dns;
pub mod laws;
pub mod parser;
pub mod storage;
pub mod web;
pub mod wire;

use vstd::prelude::*;

use bytes::BytesMut;

use crate::dns::Header;
use crate::dns::Ipv4Addr;
use crate::dns::OpCode;
use crate::dns::ResponseCode;
use crate::dns::codec::buf_bytes;
use crate::dns::header_wire;
use crate::dns::opcode_code;
use crate::dns::parsed_header;
use crate::dns::push_label_bytes;
use crate::dns::push_labels;
use crate::dns::rcode_code;
use crate::parser::QuestionParse;
use crate::parser::labels_chars;
use crate::parser::parse_question_spec;
use crate::wire::join_labels;
use crate::wire::labels_body;
use crate::wire::labels_wire;
use crate::wire::push_u16;
use crate::wire::push_u32;
use crate::wire::u16_bytes;
use crate::wire::u32_bytes;

verus! {

/// The query/response bit of the flags word.
#[derive(Debug, Copy, Clone, PartialEq, Eq, Structural)]
pub enum DnsQr {
    Query,
    Response,
}

impl DnsQr {
    pub fn from_u16(value: u16) -> (r: DnsQr)
        ensures
            r == (if value == 1 {
                DnsQr::Response
            } else {
                DnsQr::Query
            }),
    {
        if value == 1 {
            DnsQr::Response
        } else {
            DnsQr::Query
        }
    }

    pub fn as_u16(self) -> (r: u16)
        ensures
            r == (if self is Response {
                1u16
            } else {
                0u16
            }),
    {
        match self {
            DnsQr::Response => 1,
            DnsQr::Query => 0,
        }
    }
}

/// The request kind named by the header's opcode field.
#[derive(Debug, Copy, Clone, PartialEq, Eq, Structural)]
pub enum DnsOpCode {
    StandardQuery,
    InversQuery,
    ServerStatusRequest,
    Reserved(u8),
}

/// The opcode of the richer surface that `op` stands for.
pub open spec fn opcode_of_dns_opcode(op: DnsOpCode) -> OpCode {
    match op {
        DnsOpCode::StandardQuery => OpCode::StandardQuery,
        DnsOpCode::InversQuery => OpCode::InversQuery,
        DnsOpCode::ServerStatusRequest => OpCode::ServerStatusRequest,
        DnsOpCode::Reserved(v) => OpCode::Reserved(v),
    }
}

/// The opcode that the wire value `code` stands for.
pub open spec fn dns_opcode_of(code: u8) -> DnsOpCode {
    if code == 0 {
        DnsOpCode::StandardQuery
    } else if code == 1 {
        DnsOpCode::InversQuery
    } else if code == 2 {
        DnsOpCode::ServerStatusRequest
    } else {
        DnsOpCode::Reserved(code)
    }
}

impl DnsOpCode {
    pub fn from_u8(code: u8) -> (r: DnsOpCode)
        ensures
            r == dns_opcode_of(code),
    {
        if code == 0 {
            DnsOpCode::StandardQuery
        } else if code == 1 {
            DnsOpCode::InversQuery
        } else if code == 2 {
            DnsOpCode::ServerStatusRequest
        } else {
            DnsOpCode::Reserved(code)
        }
    }

    pub fn as_u8(self) -> (r: u8)
        ensures
            r == opcode_code(opcode_of_dns_opcode(self)),
    {
        match self {
            DnsOpCode::StandardQuery => 0,
            DnsOpCode::InversQuery => 1,
            DnsOpCode::ServerStatusRequest => 2,
            DnsOpCode::Reserved(code) => code,
        }
    }
}

/// The response code field of the header.
#[derive(Debug, Copy, Clone, PartialEq, Eq, Structural)]
pub enum DnsResponseCode {
    NoError,
    FormatError,
    ServerFailure,
    NameError,
    NotImplemented,
    Refused,
}

/// The response code of the richer surface that `rc` stands for.
pub open spec fn response_code_of_dns(rc: DnsResponseCode) -> ResponseCode {
    match rc {
        DnsResponseCode::NoError => ResponseCode::NoError,
        DnsResponseCode::FormatError => ResponseCode::FormatError,
        DnsResponseCode::ServerFailure => ResponseCode::ServerFailure,
        DnsResponseCode::NameError => ResponseCode::NameError,
        DnsResponseCode::NotImplemented => ResponseCode::NotImplemented,
        DnsResponseCode::Refused => ResponseCode::Refused,
    }
}

/// The response code that the wire value `code` stands for; values above
/// five read as `Refused`.
pub open spec fn dns_response_code_of(code: u8) -> DnsResponseCode {
    if code == 0 {
        DnsResponseCode::NoError
    } else if code == 1 {
        DnsResponseCode::FormatError
    } else if code == 2 {
        DnsResponseCode::ServerFailure
    } else if code == 3 {
        DnsResponseCode::NameError
    } else if code == 4 {
        DnsResponseCode::NotImplemented
    } else {
        DnsResponseCode::Refused
    }
}

impl DnsResponseCode {
    pub fn from_u8(code: u8) -> (r: DnsResponseCode)
        ensures
            r == dns_response_code_of(code),
    {
        if code == 0 {
            DnsResponseCode::NoError
        } else if code == 1 {
            DnsResponseCode::FormatError
        } else if code == 2 {
            DnsResponseCode::ServerFailure
        } else if code == 3 {
            DnsResponseCode::NameError
        } else if code == 4 {
            DnsResponseCode::NotImplemented
        } else {
            DnsResponseCode::Refused
        }
    }

    pub fn as_u8(self) -> (r: u8)
        ensures
            r == rcode_code(response_code_of_dns(self)),
    {
        match self {
            DnsResponseCode::NoError => 0,
            DnsResponseCode::FormatError => 1,
            DnsResponseCode::ServerFailure => 2,
            DnsResponseCode::NameError => 3,
            DnsResponseCode::NotImplemented => 4,
            DnsResponseCode::Refused => 5,
        }
    }
}

/// A message header on this surface, carrying every raw field.
#[derive(Debug, Clone, Copy, PartialEq, Eq, Structural)]
pub struct DnsHeader {
    pub id: u16,
    pub opcode: DnsOpCode,
    pub truncated: bool,
    pub authoritative_answer: bool,
    pub recursion_desired: bool,
    pub recursion_available: bool,
    pub response_code: DnsResponseCode,
    pub qd_count: u16,
    pub an_count: u16,
    pub ns_count: u16,
    pub ar_count: u16,
}

/// The raw header of the richer surface that `h` stands for.
pub open spec fn raw_of_dns_header(h: DnsHeader) -> Header {
    Header {
        id: h.id,
        opcode: opcode_of_dns_opcode(h.opcode),
        truncated: h.truncated,
        authoritative_answer: h.authoritative_answer,
        recursion_desired: h.recursion_desired,
        recursion_available: h.recursion_available,
        response_code: response_code_of_dns(h.response_code),
        qd_count: h.qd_count,
        an_count: h.an_count,
        ns_count: h.ns_count,
        ar_count: h.ar_count,
    }
}

/// The header on this surface read from the first twelve bytes of `d`, the
/// way this surface's decoder reads it: the authoritative-answer bit and the
/// section counts other than the question count are not retained.
pub open spec fn dns_header_of(d: Seq<u8>) -> DnsHeader {
    DnsHeader {
        id: parsed_header(d).id,
        opcode: dns_opcode_of(opcode_code(parsed_header(d).opcode)),
        truncated: parsed_header(d).truncated,
        authoritative_answer: false,
        recursion_desired: parsed_header(d).recursion_desired,
        recursion_available: parsed_header(d).recursion_available,
        response_code: dns_response_code_of(rcode_code(parsed_header(d).response_code)),
        qd_count: parsed_header(d).qd_count,
        an_count: 0,
        ns_count: 0,
        ar_count: 0,
    }
}

impl DnsHeader {
    /// The twelve wire bytes of this header on the response path.
    pub fn as_u8(&self) -> (r: Vec<u8>)
        ensures
            r@ == header_wire(raw_of_dns_header(*self), true),
    {
        let opcode = match self.opcode {
            DnsOpCode::StandardQuery => OpCode::StandardQuery,
            DnsOpCode::InversQuery => OpCode::InversQuery,
            DnsOpCode::ServerStatusRequest => OpCode::ServerStatusRequest,
            DnsOpCode::Reserved(v) => OpCode::Reserved(v),
        };
        let response_code = match self.response_code {
            DnsResponseCode::NoError => ResponseCode::NoError,
            DnsResponseCode::FormatError => ResponseCode::FormatError,
            DnsResponseCode::ServerFailure => ResponseCode::ServerFailure,
            DnsResponseCode::NameError => ResponseCode::NameError,
            DnsResponseCode::NotImplemented => ResponseCode::NotImplemented,
            DnsResponseCode::Refused => ResponseCode::Refused,
        };
        let raw = Header {
            id: self.id,
            opcode,
            truncated: self.truncated,
            authoritative_answer: self.authoritative_answer,
            recursion_desired: self.recursion_desired,
            recursion_available: self.recursion_available,
            response_code,
            qd_count: self.qd_count,
            an_count: self.an_count,
            ns_count: self.ns_count,
            ar_count: self.ar_count,
        };
        raw.as_u8()
    }
}

/// The record types this surface names.
#[derive(Debug, Copy, Clone, PartialEq, Eq, Structural)]
pub enum DnsType {
    A,
    NS,
    MX,
    SOA,
    AAAA,
}

/// The record type that the wire value `code` stands for here, if any: the
/// two obsolete mail codes and the mail-exchange code all read as `MX`, and
/// anything unnamed is refused.
pub open spec fn dns_type_of(code: u16) -> Option<DnsType> {
    if code == 1 {
        Some(DnsType::A)
    } else if code == 2 {
        Some(DnsType::NS)
    } else if code == 3 || code == 4 || code == 15 {
        Some(DnsType::MX)
    } else if code == 6 {
        Some(DnsType::SOA)
    } else if code == 28 {
        Some(DnsType::AAAA)
    } else {
        None
    }
}

/// The wire value written for `t`.
pub open spec fn dns_type_code(t: DnsType) -> u16 {
    match t {
        DnsType::A => 1,
        DnsType::NS => 2,
        DnsType::SOA => 6,
        DnsType::MX => 15,
        DnsType::AAAA => 28,
    }
}

impl DnsType {
    pub fn from_u16(code: u16) -> (r: Option<DnsType>)
        ensures
            r == dns_type_of(code),
    {
        if code == 1 {
            Some(DnsType::A)
        } else if code == 2 {
            Some(DnsType::NS)
        } else if code == 3 || code == 4 || code == 15 {
            Some(DnsType::MX)
        } else if code == 6 {
            Some(DnsType::SOA)
        } else if code == 28 {
            Some(DnsType::AAAA)
        } else {
            None
        }
    }

    pub fn as_u16(self) -> (r: u16)
        ensures
            r == dns_type_code(self),
    {
        match self {
            DnsType::A => 1,
            DnsType::NS => 2,
            DnsType::SOA => 6,
            DnsType::MX => 15,
            DnsType::AAAA => 28,
        }
    }
}

/// The record classes this surface names.
#[derive(Debug, Copy, Clone, PartialEq, Eq, Structural)]
pub enum DnsClass {
    IN,
    CS,
    CH,
    HS,
}

/// The class that the wire value `code` stands for, if any.
pub open spec fn dns_class_of(code: u16) -> Option<DnsClass> {
    if code == 1 {
        Some(DnsClass::IN)
    } else if code == 2 {
        Some(DnsClass::CS)
    } else if code == 3 {
        Some(DnsClass::CH)
    } else if code == 4 {
        Some(DnsClass::HS)
    } else {
        None
    }
}

/// The wire value written for `c`.
pub open spec fn dns_class_code(c: DnsClass) -> u16 {
    match c {
        DnsClass::IN => 1,
        DnsClass::CS => 2,
        DnsClass::CH => 3,
        DnsClass::HS => 4,
    }
}

impl DnsClass {
    pub fn from_u16(code: u16) -> (r: Option<DnsClass>)
        ensures
            r == dns_class_of(code),
    {
        if code == 1 {
            Some(DnsClass::IN)
        } else if code == 2 {
            Some(DnsClass::CS)
        } else if code == 3 {
            Some(DnsClass::CH)
        } else if code == 4 {
            Some(DnsClass::HS)
        } else {
            None
        }
    }

    pub fn as_u16(self) -> (r: u16)
        ensures
            r == dns_class_code(self),
    {
        match self {
            DnsClass::IN => 1,
            DnsClass::CS => 2,
            DnsClass::CH => 3,
            DnsClass::HS => 4,
        }
    }
}

/// A record-name offset for compressed encoding.
#[derive(Debug, Clone, Copy, PartialEq, Eq, Structural)]
struct DnsLabelPointer {
    offset: u16,
}

/// A record name on this surface: labels, a pointer, or both — the labels
/// written first, without a closing zero byte, then the pointer word.
#[derive(Debug, Clone, PartialEq)]
pub struct Name {
    labels: Option<Vec<String>>,
    pointer: Option<DnsLabelPointer>,
}

/// The labels this name writes, if any.
pub closed spec fn name_labels(n: Name) -> Option<Seq<Seq<char>>> {
    match n.labels {
        Some(ls) => Some(ls.deep_view()),
        None => None,
    }
}

/// The pointer offset this name writes, if any.
pub closed spec fn name_pointer(n: Name) -> Option<u16> {
    match n.pointer {
        Some(p) => Some(p.offset),
        None => None,
    }
}

/// The wire bytes of a name on this surface.
pub open spec fn dns_name_wire(n: Name) -> Seq<u8> {
    (match name_labels(n) {
        Some(ls) => labels_body(ls),
        None => Seq::empty(),
    }) + (match name_pointer(n) {
        Some(offset) => u16_bytes((49152 + (offset as int) % 16384) as u16),
        None => Seq::empty(),
    })
}

impl Name {
    /// A name that is just a pointer to an earlier occurrence.
    pub fn with_pointer(offset: u16) -> (r: Self)
        ensures
            name_labels(r) is None,
            name_pointer(r) == Some(offset),
    {
        Name { labels: None, pointer: Some(DnsLabelPointer { offset }) }
    }

    /// The wire bytes of this name.
    pub fn as_u8(&self) -> (r: Vec<u8>)
        ensures
            r@ == dns_name_wire(*self),
    {
        let mut out: Vec<u8> = Vec::new();
        match &self.labels {
            Some(labels) => {
                push_label_bytes(labels, &mut out);
            },
            None => {},
        }
        match &self.pointer {
            Some(pointer) => {
                push_u16(&mut out, 49152 + pointer.offset % 16384);
            },
            None => {},
        }
        assert(out@ =~= dns_name_wire(*self));
        out
    }
}

/// One question on this surface.
#[derive(Debug, Clone, PartialEq)]
pub struct DnsQuestion {
    pub labels: Vec<String>,
    pub name: String,
    pub query_type: DnsType,
    pub query_class: DnsClass,
}

/// The wire bytes of a question on this surface.
pub open spec fn dns_question_wire(q: DnsQuestion) -> Seq<u8> {
    labels_wire(q.labels.deep_view()) + u16_bytes(dns_type_code(q.query_type)) + u16_bytes(
        dns_class_code(q.query_class),
    )
}

impl DnsQuestion {
    /// The wire bytes of this question.
    pub fn as_u8(&self) -> (r: Vec<u8>)
        ensures
            r@ == dns_question_wire(*self),
    {
        let mut out: Vec<u8> = Vec::new();
        push_labels(&self.labels, &mut out);
        push_u16(&mut out, self.query_type.as_u16());
        push_u16(&mut out, self.query_class.as_u16());
        assert(out@ =~= dns_question_wire(*self));
        out
    }
}

/// One answer record on this surface: an IPv4 address under a name.
#[derive(Debug, Clone, PartialEq)]
pub struct DnsResourceRecord {
    pub name: Name,
    pub data_type: DnsType,
    pub data_class: DnsClass,
    pub ttl: u32,
    pub resource_data_length: u16,
    pub resource_data: Ipv4Addr,
}

/// The wire bytes of a record on this surface.
pub open spec fn dns_record_wire(rr: DnsResourceRecord) -> Seq<u8> {
    dns_name_wire(rr.name) + u16_bytes(dns_type_code(rr.data_type)) + u16_bytes(
        dns_class_code(rr.data_class),
    ) + u32_bytes(rr.ttl) + u16_bytes(rr.resource_data_length) + rr.resource_data.octets@
}

impl DnsResourceRecord {
    /// The wire bytes of this record.
    pub fn as_u8(&self) -> (r: Vec<u8>)
        ensures
            r@ == dns_record_wire(*self),
    {
        let mut out = self.name.as_u8();
        push_u16(&mut out, self.data_type.as_u16());
        push_u16(&mut out, self.data_class.as_u16());
        push_u32(&mut out, self.ttl);
        push_u16(&mut out, self.resource_data_length);
        let mut k: usize = 0;
        let ghost before = out@;
        while k < 4
            invariant
                0 <= k <= 4,
                out@ == before + self.resource_data.octets@.take(k as int),
            decreases 4 - k,
        {
            out.push(self.resource_data.octets[k]);
            assert(out@ =~= before + self.resource_data.octets@.take(k + 1));
            k += 1;
        }
        assert(out@ =~= dns_record_wire(*self));
        out
    }
}

/// A parsed standard query on this surface.
#[derive(Debug, Clone, PartialEq)]
pub struct DnsStandardQuery {
    pub header: DnsHeader,
    pub question: DnsQuestion,
}

/// A parsed request on this surface, by opcode.
#[derive(Debug, Clone, PartialEq)]
pub enum QueryMessage {
    StandardQuery(DnsStandardQuery),
    InverseQuery,
    Status,
    Reserved(u8),
}

/// A response on this surface: header, echoed question, answer records.
#[derive(Debug, Clone, PartialEq)]
pub struct ResponseMessage {
    pub header: DnsHeader,
    pub question: DnsQuestion,
    pub answer: Vec<DnsResourceRecord>,
}

/// The wire bytes of the records, in order.
pub open spec fn dns_records_wire(rs: Seq<DnsResourceRecord>) -> Seq<u8>
    decreases rs.len(),
{
    if rs.len() == 0 {
        Seq::empty()
    } else {
        dns_record_wire(rs[0]) + dns_records_wire(rs.drop_first())
    }
}

proof fn lemma_dns_records_wire_push(rs: Seq<DnsResourceRecord>, rr: DnsResourceRecord)
    ensures
        dns_records_wire(rs.push(rr)) =~= dns_records_wire(rs) + dns_record_wire(rr),
    decreases rs.len(),
{
    if rs.len() == 0 {
        assert(rs.push(rr).drop_first() =~= Seq::<DnsResourceRecord>::empty());
        assert(rs.push(rr)[0] == rr);
        assert(dns_records_wire(Seq::<DnsResourceRecord>::empty()) =~= Seq::<u8>::empty());
        assert(dns_records_wire(rs.push(rr)) =~= dns_record_wire(rr));
        assert(dns_records_wire(rs) + dns_record_wire(rr) =~= dns_record_wire(rr));
    } else {
        assert(rs.push(rr).drop_first() =~= rs.drop_first().push(rr));
        lemma_dns_records_wire_push(rs.drop_first(), rr);
        assert(rs.push(rr)[0] == rs[0]);
        assert(dns_records_wire(rs.push(rr)) == dns_record_wire(rs[0]) + dns_records_wire(
            rs.drop_first().push(rr),
        ));
        assert(dns_records_wire(rs.push(rr)) =~= (dns_record_wire(rs[0]) + dns_records_wire(
            rs.drop_first(),
        )) + dns_record_wire(rr));
    }
}

/// The wire bytes of a whole response on this surface.
pub open spec fn response_message_wire(m: ResponseMessage) -> Seq<u8> {
    header_wire(raw_of_dns_header(m.header), true) + dns_question_wire(m.question)
        + dns_records_wire(m.answer@)
}

impl ResponseMessage {
    /// The wire bytes of this response.
    pub fn as_u8(self) -> (r: Vec<u8>)
        ensures
            r@ == response_message_wire(self),
    {
        let mut out = self.header.as_u8();
        let mut q = self.question.as_u8();
        out.append(&mut q);
        let ghost prefix = out@;
        let mut i: usize = 0;
        while i < self.answer.len()
            invariant
                0 <= i <= self.answer@.len(),
                out@ == prefix + dns_records_wire(self.answer@.take(i as int)),
            decreases self.answer@.len() - i,
        {
            let mut rr = self.answer[i].as_u8();
            out.append(&mut rr);
            proof {
                lemma_dns_records_wire_push(self.answer@.take(i as int), self.answer@[i as int]);
                assert(self.answer@.take(i as int).push(self.answer@[i as int])
                    =~= self.answer@.take(i + 1));
            }
            i += 1;
        }
        proof {
            assert(self.answer@.take(self.answer@.len() as int) =~= self.answer@);
            assert(out@ =~= response_message_wire(self));
        }
        out
    }
}

/// The question bytes of `d` parse, and their type word is one this surface
/// names: what this surface needs of a standard query.
pub open spec fn simple_question_ok(d: Seq<u8>) -> bool {
    &&& parse_question_spec(d, 12) matches QuestionParse::Done { qtype, .. } && dns_type_of(qtype)
        is Some
}

/// `q` is the question read from offset twelve of `d`, on this surface.
pub open spec fn simple_question_matches(q: DnsQuestion, d: Seq<u8>) -> bool {
    &&& parse_question_spec(d, 12) matches QuestionParse::Done { labels, qtype, qclass, .. } && {
        &&& q.labels.deep_view() == labels_chars(labels)
        &&& q.name@ == join_labels(labels_chars(labels))
        &&& Some(q.query_type) == dns_type_of(qtype)
        &&& Some(q.query_class) == dns_class_of(qclass)
    }
}

impl QueryMessage {
    /// Reads a request from `input`: the header, then — for a standard
    /// query only — its question. The caller must hand in a message whose
    /// header is complete and whose question, if the opcode asks for one,
    /// parses and carries a record type this surface names.
    pub fn from_u8(input: &[u8]) -> (r: QueryMessage)
        requires
            input@.len() >= 12,
            parsed_header(input@).opcode == OpCode::StandardQuery ==> simple_question_ok(input@),
        ensures
            match r {
                QueryMessage::StandardQuery(q) => parsed_header(input@).opcode
                    == OpCode::StandardQuery && q.header == dns_header_of(input@)
                    && simple_question_matches(q.question, input@),
                QueryMessage::InverseQuery => parsed_header(input@).opcode == OpCode::InversQuery,
                QueryMessage::Status => parsed_header(input@).opcode
                    == OpCode::ServerStatusRequest,
                QueryMessage::Reserved(v) => parsed_header(input@).opcode == OpCode::Reserved(v),
            },
    {
        let (_, raw) = match parser::dns_header(input) {
            Ok(v) => v,
            Err(_) => vstd::pervasive::unreached(),
        };
        match raw.opcode {
            OpCode::InversQuery => QueryMessage::InverseQuery,
            OpCode::ServerStatusRequest => QueryMessage::Status,
            OpCode::Reserved(v) => QueryMessage::Reserved(v),
            OpCode::StandardQuery => {
                let header = DnsHeader {
                    id: raw.id,
                    opcode: DnsOpCode::StandardQuery,
                    truncated: raw.truncated,
                    authoritative_answer: false,
                    recursion_desired: raw.recursion_desired,
                    recursion_available: raw.recursion_available,
                    response_code: DnsResponseCode::from_u8(raw.response_code.as_u8()),
                    qd_count: raw.qd_count,
                    an_count: 0,
                    ns_count: 0,
                    ar_count: 0,
                };
                let question = match parser::dns_question_from(input, 12) {
                    Ok((_, q)) => q,
                    Err(_) => vstd::pervasive::unreached(),
                };
                let query_type = match DnsType::from_u16(question.query_type.as_u16()) {
                    Some(t) => t,
                    None => vstd::pervasive::unreached(),
                };
                let query_class = match DnsClass::from_u16(question.query_class.as_u16()) {
                    Some(c) => c,
                    None => vstd::pervasive::unreached(),
                };
                QueryMessage::StandardQuery(
                    DnsStandardQuery {
                        header,
                        question: DnsQuestion {
                            labels: question.labels,
                            name: question.name,
                            query_type,
                            query_class,
                        },
                    },
                )
            },
        }
    }
}

/// The framing codec of the minimal surface.
#[derive(Copy, Clone, Debug, Eq, PartialEq, Ord, PartialOrd, Hash, Default)]
pub struct DnsMessageCodec(());

impl DnsMessageCodec {
    /// The codec's one value.
    pub closed spec fn default_value() -> DnsMessageCodec {
        DnsMessageCodec(())
    }

    pub fn new() -> (r: Self)
        ensures
            r == DnsMessageCodec::default_value(),
    {
        DnsMessageCodec(())
    }

    /// Decodes one request from `buf`. A buffer shorter than a header, or a
    /// question still missing bytes, decides nothing and keeps the buffer:
    /// the rest of the datagram may follow. A malformed question, or one of
    /// a record type this surface does not name, clears the buffer and
    /// fails, so the next datagram starts clean. A decoded request empties
    /// the buffer.
    pub fn decode(&mut self, buf: &mut BytesMut) -> (r: Result<
        Option<QueryMessage>,
        crate::dns::codec::Error,
    >)
        ensures
            match r {
                Ok(ro) => match ro {
                    None => {
                        &&& buf_bytes(*final(buf)) == buf_bytes(*old(buf))
                        &&& (buf_bytes(*old(buf)).len() < 12 || (parsed_header(
                            buf_bytes(*old(buf)),
                        ).opcode == OpCode::StandardQuery && parse_question_spec(
                            buf_bytes(*old(buf)),
                            12,
                        ) is Incomplete))
                    },
                    Some(m) => {
                        &&& buf_bytes(*old(buf)).len() >= 12
                        &&& buf_bytes(*final(buf)).len() == 0
                        &&& match m {
                            QueryMessage::StandardQuery(q) => {
                                &&& parsed_header(buf_bytes(*old(buf))).opcode
                                    == OpCode::StandardQuery
                                &&& q.header == dns_header_of(buf_bytes(*old(buf)))
                                &&& simple_question_matches(q.question, buf_bytes(*old(buf)))
                            },
                            QueryMessage::InverseQuery => parsed_header(
                                buf_bytes(*old(buf)),
                            ).opcode == OpCode::InversQuery,
                            QueryMessage::Status => parsed_header(buf_bytes(*old(buf))).opcode
                                == OpCode::ServerStatusRequest,
                            QueryMessage::Reserved(v) => parsed_header(
                                buf_bytes(*old(buf)),
                            ).opcode == OpCode::Reserved(v),
                        }
                    },
                },
                Err(e) => {
                    &&& e == crate::dns::codec::Error::Decoding
                    &&& buf_bytes(*final(buf)).len() == 0
                    &&& buf_bytes(*old(buf)).len() >= 12
                    &&& parsed_header(buf_bytes(*old(buf))).opcode == OpCode::StandardQuery
                    &&& !(parse_question_spec(buf_bytes(*old(buf)), 12) is Incomplete)
                    &&& !simple_question_ok(buf_bytes(*old(buf)))
                },
            },
    {
        let len = crate::dns::codec::buf_len(buf);
        if len < 12 {
            return Ok(None);
        }
        let decision: Result<QueryMessage, crate::dns::codec::Error> = {
            let s = crate::dns::codec::buf_as_slice(buf);
            let (_, raw) = match parser::dns_header(s) {
                Ok(v) => v,
                Err(_) => vstd::pervasive::unreached(),
            };
            match raw.opcode {
                OpCode::InversQuery => Ok(QueryMessage::InverseQuery),
                OpCode::ServerStatusRequest => Ok(QueryMessage::Status),
                OpCode::Reserved(v) => Ok(QueryMessage::Reserved(v)),
                OpCode::StandardQuery => {
                    match parser::dns_question_from(s, 12) {
                        Err(parser::Error::Incomplete) => {
                            return Ok(None);
                        },
                        Err(_) => Err(crate::dns::codec::Error::Decoding),
                        Ok((_, question)) => {
                            let qt = DnsType::from_u16(question.query_type.as_u16());
                            let qc = DnsClass::from_u16(question.query_class.as_u16());
                            match (qt, qc) {
                                (Some(query_type), Some(query_class)) => Ok(
                                    QueryMessage::StandardQuery(
                                        DnsStandardQuery {
                                            header: DnsHeader {
                                                id: raw.id,
                                                opcode: DnsOpCode::StandardQuery,
                                                truncated: raw.truncated,
                                                authoritative_answer: false,
                                                recursion_desired: raw.recursion_desired,
                                                recursion_available: raw.recursion_available,
                                                response_code: DnsResponseCode::from_u8(
                                                    raw.response_code.as_u8(),
                                                ),
                                                qd_count: raw.qd_count,
                                                an_count: 0,
                                                ns_count: 0,
                                                ar_count: 0,
                                            },
                                            question: DnsQuestion {
                                                labels: question.labels,
                                                name: question.name,
                                                query_type,
                                                query_class,
                                            },
                                        },
                                    ),
                                ),
                                _ => Err(crate::dns::codec::Error::Decoding),
                            }
                        },
                    }
                },
            }
        };
        match decision {
            Ok(m) => {
                crate::dns::codec::buf_clear(buf);
                Ok(Some(m))
            },
            Err(e) => {
                crate::dns::codec::buf_clear(buf);
                Err(e)
            },
        }
    }

    /// Serializes `data` onto the end of `buf`.
    pub fn encode(&mut self, data: ResponseMessage, buf: &mut BytesMut)
        ensures
            buf_bytes(*final(buf)) == buf_bytes(*old(buf)) + response_message_wire(data),
    {
        let raw_data = data.as_u8();
        crate::dns::codec::buf_put(buf, raw_data.as_slice());
    }
}

} // verus!
