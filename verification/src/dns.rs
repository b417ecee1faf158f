//! The DNS data model: header, question, resource records, and their wire
//! encodings, stated byte for byte as spec functions and proved of the
//! executable encoders.

pub mod codec;
pub mod response;
pub mod server;

use vstd::prelude::*;

use crate::wire::be16;
use crate::wire::bytes_of_chars;
use crate::wire::domain_wire;
use crate::wire::fold;
use crate::wire::fold_char;
use crate::wire::to_folded;
use crate::wire::label_wire;
use crate::wire::labels_body;
use crate::wire::labels_wire;
use crate::wire::lemma_first_dot_value;
use crate::wire::lemma_labels_body_push;
use crate::wire::lemma_labels_wire_body;
use crate::wire::push_u16;
use crate::wire::push_u32;
use crate::wire::u16_bytes;
use crate::wire::u32_bytes;

verus! {

#[derive(Debug, Copy, Clone, PartialEq, Eq, Structural)]
pub enum OpCode {
    StandardQuery,
    InversQuery,
    ServerStatusRequest,
    Reserved(u8),
}

/// The four-bit value that stands for `op` in the header flags word.
pub open spec fn opcode_code(op: OpCode) -> u8 {
    match op {
        OpCode::StandardQuery => 0,
        OpCode::InversQuery => 1,
        OpCode::ServerStatusRequest => 2,
        OpCode::Reserved(v) => v,
    }
}

/// The opcode that the wire value `code` stands for.
pub open spec fn opcode_of(code: u8) -> OpCode {
    if code == 0 {
        OpCode::StandardQuery
    } else if code == 1 {
        OpCode::InversQuery
    } else if code == 2 {
        OpCode::ServerStatusRequest
    } else {
        OpCode::Reserved(code)
    }
}

/// An opcode as the parser produces it: below 16, and never a named value
/// hidden under `Reserved`.
pub open spec fn opcode_canonical(op: OpCode) -> bool {
    opcode_code(op) < 16 && opcode_of(opcode_code(op)) == op
}

impl OpCode {
    pub fn from_u8(code: u8) -> (r: OpCode)
        ensures
            r == opcode_of(code),
    {
        if code == 0 {
            OpCode::StandardQuery
        } else if code == 1 {
            OpCode::InversQuery
        } else if code == 2 {
            OpCode::ServerStatusRequest
        } else {
            OpCode::Reserved(code)
        }
    }

    pub fn as_u8(self) -> (r: u8)
        ensures
            r == opcode_code(self),
    {
        match self {
            OpCode::StandardQuery => 0,
            OpCode::InversQuery => 1,
            OpCode::ServerStatusRequest => 2,
            OpCode::Reserved(code) => code,
        }
    }
}

#[derive(Debug, Copy, Clone, PartialEq, Eq, Structural)]
pub enum ResponseCode {
    NoError,
    FormatError,
    ServerFailure,
    NameError,
    NotImplemented,
    Refused,
}

/// The four-bit value that stands for `rc` in the header flags word.
pub open spec fn rcode_code(rc: ResponseCode) -> u8 {
    match rc {
        ResponseCode::NoError => 0,
        ResponseCode::FormatError => 1,
        ResponseCode::ServerFailure => 2,
        ResponseCode::NameError => 3,
        ResponseCode::NotImplemented => 4,
        ResponseCode::Refused => 5,
    }
}

/// The response code that the wire value `code` stands for; every value
/// above five reads as `Refused`.
pub open spec fn rcode_of(code: u8) -> ResponseCode {
    if code == 0 {
        ResponseCode::NoError
    } else if code == 1 {
        ResponseCode::FormatError
    } else if code == 2 {
        ResponseCode::ServerFailure
    } else if code == 3 {
        ResponseCode::NameError
    } else if code == 4 {
        ResponseCode::NotImplemented
    } else {
        ResponseCode::Refused
    }
}

impl ResponseCode {
    pub fn from_u8(code: u8) -> (r: ResponseCode)
        ensures
            r == rcode_of(code),
    {
        if code == 0 {
            ResponseCode::NoError
        } else if code == 1 {
            ResponseCode::FormatError
        } else if code == 2 {
            ResponseCode::ServerFailure
        } else if code == 3 {
            ResponseCode::NameError
        } else if code == 4 {
            ResponseCode::NotImplemented
        } else {
            ResponseCode::Refused
        }
    }

    pub fn as_u8(self) -> (r: u8)
        ensures
            r == rcode_code(self),
    {
        match self {
            ResponseCode::NoError => 0,
            ResponseCode::FormatError => 1,
            ResponseCode::ServerFailure => 2,
            ResponseCode::NameError => 3,
            ResponseCode::NotImplemented => 4,
            ResponseCode::Refused => 5,
        }
    }
}

#[derive(Debug, Copy, Clone, PartialEq, Eq, Structural)]
pub enum QueryType {
    A,
    NS,
    MX,
    SOA,
    AAAA,
    CNAME,
    NotImplmented(u16),
    ALL,
}

/// The wire value of a query type.
pub open spec fn qtype_code(qt: QueryType) -> u16 {
    match qt {
        QueryType::A => 1,
        QueryType::NS => 2,
        QueryType::CNAME => 5,
        QueryType::SOA => 6,
        QueryType::MX => 15,
        QueryType::AAAA => 28,
        QueryType::ALL => 255,
        QueryType::NotImplmented(t) => t,
    }
}

/// The query type that the wire value `code` stands for; unknown values are
/// kept under `NotImplmented` so the resolver can answer them with an empty
/// record list.
pub open spec fn qtype_of(code: u16) -> QueryType {
    if code == 1 {
        QueryType::A
    } else if code == 2 {
        QueryType::NS
    } else if code == 5 {
        QueryType::CNAME
    } else if code == 6 {
        QueryType::SOA
    } else if code == 15 {
        QueryType::MX
    } else if code == 28 {
        QueryType::AAAA
    } else if code == 255 {
        QueryType::ALL
    } else {
        QueryType::NotImplmented(code)
    }
}

impl QueryType {
    pub fn from_u16(code: u16) -> (r: QueryType)
        ensures
            r == qtype_of(code),
    {
        if code == 1 {
            QueryType::A
        } else if code == 2 {
            QueryType::NS
        } else if code == 5 {
            QueryType::CNAME
        } else if code == 6 {
            QueryType::SOA
        } else if code == 15 {
            QueryType::MX
        } else if code == 28 {
            QueryType::AAAA
        } else if code == 255 {
            QueryType::ALL
        } else {
            QueryType::NotImplmented(code)
        }
    }

    pub fn as_u16(self) -> (r: u16)
        ensures
            r == qtype_code(self),
    {
        match self {
            QueryType::A => 1,
            QueryType::NS => 2,
            QueryType::CNAME => 5,
            QueryType::SOA => 6,
            QueryType::MX => 15,
            QueryType::AAAA => 28,
            QueryType::ALL => 255,
            QueryType::NotImplmented(t) => t,
        }
    }
}

#[derive(Debug, Copy, Clone, PartialEq, Eq, Structural)]
pub enum QueryClass {
    IN,
    CS,
    CH,
    HS,
}

/// The wire value of a query class.
pub open spec fn qclass_code(qc: QueryClass) -> u16 {
    match qc {
        QueryClass::IN => 1,
        QueryClass::CS => 2,
        QueryClass::CH => 3,
        QueryClass::HS => 4,
    }
}

/// The query class that the wire value `code` stands for, if any; every
/// other value is a parse error.
pub open spec fn qclass_of(code: u16) -> Option<QueryClass> {
    if code == 1 {
        Some(QueryClass::IN)
    } else if code == 2 {
        Some(QueryClass::CS)
    } else if code == 3 {
        Some(QueryClass::CH)
    } else if code == 4 {
        Some(QueryClass::HS)
    } else {
        None
    }
}

impl QueryClass {
    pub fn from_u16(code: u16) -> (r: Option<QueryClass>)
        ensures
            r == qclass_of(code),
    {
        if code == 1 {
            Some(QueryClass::IN)
        } else if code == 2 {
            Some(QueryClass::CS)
        } else if code == 3 {
            Some(QueryClass::CH)
        } else if code == 4 {
            Some(QueryClass::HS)
        } else {
            None
        }
    }

    pub fn as_u16(self) -> (r: u16)
        ensures
            r == qclass_code(self),
    {
        match self {
            QueryClass::IN => 1,
            QueryClass::CS => 2,
            QueryClass::CH => 3,
            QueryClass::HS => 4,
        }
    }
}

/// The query/response bit of the header flags word.
#[derive(Debug, Copy, Clone, PartialEq, Eq, Structural)]
pub enum Qr {
    Query,
    Response,
}

impl Qr {
    pub fn from_u16(value: u16) -> (r: Qr)
        ensures
            r == (if value == 1 {
                Qr::Response
            } else {
                Qr::Query
            }),
    {
        if value == 1 {
            Qr::Response
        } else {
            Qr::Query
        }
    }

    pub fn as_u16(self) -> (r: u16)
        ensures
            r == (if self is Response {
                1u16
            } else {
                0u16
            }),
    {
        match self {
            Qr::Response => 1,
            Qr::Query => 0,
        }
    }
}

/// A raw DNS message header: everything the twelve wire bytes carry except
/// the query/response bit and the three reserved `z` bits.
#[derive(Debug, Copy, Clone, PartialEq, Eq, Structural)]
pub struct Header {
    pub id: u16,
    pub opcode: OpCode,
    pub truncated: bool,
    pub authoritative_answer: bool,
    pub recursion_desired: bool,
    pub recursion_available: bool,
    pub response_code: ResponseCode,
    pub qd_count: u16,
    pub an_count: u16,
    pub ns_count: u16,
    pub ar_count: u16,
}

/// The first flags byte: the query/response bit, the opcode, and the
/// authoritative-answer, truncation and recursion-desired bits.
pub open spec fn flags_hi(h: Header, qr: bool) -> u8 {
    ((if qr {
        128int
    } else {
        0int
    }) + (opcode_code(h.opcode) as int % 16) * 8 + (if h.authoritative_answer {
        4int
    } else {
        0int
    }) + (if h.truncated {
        2int
    } else {
        0int
    }) + (if h.recursion_desired {
        1int
    } else {
        0int
    })) as u8
}

/// The second flags byte: the recursion-available bit, zero `z` bits, and
/// the response code.
pub open spec fn flags_lo(h: Header) -> u8 {
    ((if h.recursion_available {
        128int
    } else {
        0int
    }) + (rcode_code(h.response_code) as int % 16)) as u8
}

/// The twelve wire bytes of a header, with the given query/response bit and
/// the `z` bits zero.
pub open spec fn header_wire(h: Header, qr: bool) -> Seq<u8> {
    u16_bytes(h.id) + seq![flags_hi(h, qr), flags_lo(h)] + u16_bytes(h.qd_count) + u16_bytes(
        h.an_count,
    ) + u16_bytes(h.ns_count) + u16_bytes(h.ar_count)
}

/// The header encoded in the first twelve bytes of `d`.
pub open spec fn parsed_header(d: Seq<u8>) -> Header
    recommends
        d.len() >= 12,
{
    Header {
        id: be16(d, 0),
        opcode: opcode_of((((d[2] as int) / 8) % 16) as u8),
        authoritative_answer: ((d[2] as int) / 4) % 2 == 1,
        truncated: ((d[2] as int) / 2) % 2 == 1,
        recursion_desired: (d[2] as int) % 2 == 1,
        recursion_available: ((d[3] as int) / 128) % 2 == 1,
        response_code: rcode_of(((d[3] as int) % 16) as u8),
        qd_count: be16(d, 4),
        an_count: be16(d, 6),
        ns_count: be16(d, 8),
        ar_count: be16(d, 10),
    }
}

/// What the decoder keeps of the header in `d`: §4.A retains only the id,
/// the truncation and recursion bits, the response code and the question
/// count; the authoritative-answer bit and the other section counts are not
/// retained and read as their response-path defaults.
pub open spec fn retained_header(d: Seq<u8>) -> Header
    recommends
        d.len() >= 12,
{
    Header {
        authoritative_answer: false,
        an_count: 0,
        ns_count: 0,
        ar_count: 0,
        ..parsed_header(d)
    }
}

/// The query/response bit of the message in `d`.
pub open spec fn qr_bit(d: Seq<u8>) -> bool
    recommends
        d.len() >= 12,
{
    ((d[2] as int) / 128) % 2 == 1
}

/// The three reserved bits of the message in `d`.
pub open spec fn z_bits(d: Seq<u8>) -> int
    recommends
        d.len() >= 12,
{
    ((d[3] as int) / 16) % 8
}

/// Parsing the encoding of a header gives the header back, along with the
/// query/response bit it was written with; nothing but the `z` bits (written
/// as zero) is lost.
pub proof fn lemma_header_round_trip(h: Header, qr: bool)
    requires
        opcode_canonical(h.opcode),
    ensures
        parsed_header(header_wire(h, qr)) == h,
        qr_bit(header_wire(h, qr)) == qr,
        z_bits(header_wire(h, qr)) == 0,
        header_wire(h, qr).len() == 12,
{
    let d = header_wire(h, qr);
    assert(d[0] == (h.id / 256) as u8 && d[1] == (h.id % 256) as u8);
    assert(be16(d, 0) == h.id);
    assert(be16(d, 4) == h.qd_count && be16(d, 6) == h.an_count && be16(d, 8) == h.ns_count
        && be16(d, 10) == h.ar_count);
    let op = opcode_code(h.opcode) as int;
    let hi = d[2] as int;
    let aa = if h.authoritative_answer {
        4int
    } else {
        0int
    };
    let tc = if h.truncated {
        2int
    } else {
        0int
    };
    let rd = if h.recursion_desired {
        1int
    } else {
        0int
    };
    let qrv = if qr {
        128int
    } else {
        0int
    };
    assert(hi == qrv + op * 8 + aa + tc + rd);
    assert((hi / 8) % 16 == op) by (nonlinear_arith)
        requires
            hi == qrv + op * 8 + aa + tc + rd,
            0 <= op < 16,
            qrv == 0 || qrv == 128,
            0 <= aa <= 4 && (aa == 0 || aa == 4),
            tc == 0 || tc == 2,
            rd == 0 || rd == 1,
    ;
    assert((hi / 4) % 2 == (if h.authoritative_answer {
        1int
    } else {
        0int
    })) by (nonlinear_arith)
        requires
            hi == qrv + op * 8 + aa + tc + rd,
            0 <= op < 16,
            qrv == 0 || qrv == 128,
            aa == 0 || aa == 4,
            tc == 0 || tc == 2,
            rd == 0 || rd == 1,
            aa == (if h.authoritative_answer {
                4int
            } else {
                0int
            }),
    ;
    assert((hi / 2) % 2 == (if h.truncated {
        1int
    } else {
        0int
    })) by (nonlinear_arith)
        requires
            hi == qrv + op * 8 + aa + tc + rd,
            0 <= op < 16,
            qrv == 0 || qrv == 128,
            aa == 0 || aa == 4,
            tc == 0 || tc == 2,
            rd == 0 || rd == 1,
            tc == (if h.truncated {
                2int
            } else {
                0int
            }),
    ;
    assert(hi % 2 == rd) by (nonlinear_arith)
        requires
            hi == qrv + op * 8 + aa + tc + rd,
            0 <= op < 16,
            qrv == 0 || qrv == 128,
            aa == 0 || aa == 4,
            tc == 0 || tc == 2,
            rd == 0 || rd == 1,
    ;
    assert((hi / 128) % 2 == (if qr {
        1int
    } else {
        0int
    })) by (nonlinear_arith)
        requires
            hi == qrv + op * 8 + aa + tc + rd,
            0 <= op < 16,
            qrv == (if qr {
                128int
            } else {
                0int
            }),
            aa == 0 || aa == 4,
            tc == 0 || tc == 2,
            rd == 0 || rd == 1,
    ;
    let lo = d[3] as int;
    let ra = if h.recursion_available {
        128int
    } else {
        0int
    };
    let rc = rcode_code(h.response_code) as int;
    assert(rc < 16);
    assert(lo == ra + rc);
    assert((lo / 128) % 2 == (if h.recursion_available {
        1int
    } else {
        0int
    })) by (nonlinear_arith)
        requires
            lo == ra + rc,
            0 <= rc < 16,
            ra == (if h.recursion_available {
                128int
            } else {
                0int
            }),
    ;
    assert(lo % 16 == rc) by (nonlinear_arith)
        requires
            lo == ra + rc,
            0 <= rc < 16,
            ra == 0 || ra == 128,
    ;
    assert((lo / 16) % 8 == 0) by (nonlinear_arith)
        requires
            lo == ra + rc,
            0 <= rc < 16,
            ra == 0 || ra == 128,
    ;
    assert(rcode_of(rcode_code(h.response_code)) == h.response_code);
    assert(parsed_header(d) == h);
}

/// Every byte is the weighted sum of the header-flag fields read from it.
proof fn lemma_flags_byte_split(b: u8)
    ensures
        b as int == 128 * ((b as int / 128) % 2) + 8 * ((b as int / 8) % 16) + 4 * ((b as int / 4)
            % 2) + 2 * ((b as int / 2) % 2) + (b as int % 2),
        b as int == 128 * ((b as int / 128) % 2) + 16 * ((b as int / 16) % 8) + (b as int % 16),
{
    assert(b == 128 * ((b / 128) % 2) + 8 * ((b / 8) % 16) + 4 * ((b / 4) % 2) + 2 * ((b / 2) % 2)
        + b % 2) by (bit_vector);
    assert(b == 128 * ((b / 128) % 2) + 16 * ((b / 16) % 8) + b % 16) by (bit_vector);
}

/// Re-encoding a parsed header reproduces its twelve bytes exactly, as long
/// as nothing the representation drops was set: the query/response bit must
/// have been one (the encoder always writes a response), the reserved bits
/// zero, and the response code one of the six the library names.
pub proof fn lemma_header_reencode(d: Seq<u8>)
    requires
        d.len() >= 12,
        qr_bit(d),
        z_bits(d) == 0,
        (d[3] as int) % 16 <= 5,
    ensures
        header_wire(parsed_header(d), true) =~= d.take(12),
{
    let h = parsed_header(d);
    assert(u16_bytes(be16(d, 0)) =~= seq![d[0], d[1]]);
    assert(u16_bytes(be16(d, 4)) =~= seq![d[4], d[5]]);
    assert(u16_bytes(be16(d, 6)) =~= seq![d[6], d[7]]);
    assert(u16_bytes(be16(d, 8)) =~= seq![d[8], d[9]]);
    assert(u16_bytes(be16(d, 10)) =~= seq![d[10], d[11]]);
    lemma_flags_byte_split(d[2]);
    lemma_flags_byte_split(d[3]);
    let op = (d[2] as int / 8) % 16;
    assert(opcode_code(opcode_of(op as u8)) == op);
    assert(opcode_code(h.opcode) as int % 16 == op);
    assert(flags_hi(h, true) as int == 128 + op * 8 + 4 * ((d[2] as int / 4) % 2) + 2 * ((
    d[2] as int / 2) % 2) + (d[2] as int % 2));
    assert(flags_hi(h, true) == d[2]);
    let rc = (d[3] as int) % 16;
    assert(rcode_code(rcode_of(rc as u8)) == rc);
    assert(flags_lo(h) as int == 128 * ((d[3] as int / 128) % 2) + rc);
    assert(flags_lo(h) == d[3]);
}

impl Header {
    /// The twelve bytes of this header on the response path: the
    /// query/response bit is set, the `z` bits are written as zero.
    pub fn as_u8(&self) -> (r: Vec<u8>)
        ensures
            r@ == header_wire(*self, true),
    {
        let mut out: Vec<u8> = Vec::new();
        push_u16(&mut out, self.id);
        let hi: u8 = 128 + (self.opcode.as_u8() % 16) * 8 + (if self.authoritative_answer {
            4
        } else {
            0
        }) + (if self.truncated {
            2
        } else {
            0
        }) + (if self.recursion_desired {
            1
        } else {
            0
        });
        let lo: u8 = (if self.recursion_available {
            128
        } else {
            0
        }) + self.response_code.as_u8() % 16;
        out.push(hi);
        out.push(lo);
        push_u16(&mut out, self.qd_count);
        push_u16(&mut out, self.an_count);
        push_u16(&mut out, self.ns_count);
        push_u16(&mut out, self.ar_count);
        assert(out@ =~= header_wire(*self, true));
        out
    }
}

/// The header-only reply sent for a request whose opcode the server does not
/// implement.
#[derive(Debug, Clone, PartialEq)]
pub struct NotImplementedResponse {
    pub header: Header,
}

impl NotImplementedResponse {
    /// The wire bytes of the reply: just the header, marked as a response.
    pub fn as_u8(self) -> (r: Vec<u8>)
        ensures
            r@ == header_wire(self.header, true),
    {
        self.header.as_u8()
    }
}

/// An IPv4 address as its four wire octets.
#[derive(Debug, Copy, Clone, PartialEq, Eq)]
pub struct Ipv4Addr {
    pub octets: [u8; 4],
}

/// An IPv6 address as its sixteen wire octets.
#[derive(Debug, Copy, Clone, PartialEq, Eq)]
pub struct Ipv6Addr {
    pub octets: [u8; 16],
}

/// An address of either family, as the update endpoint receives it.
#[derive(Debug, Copy, Clone, PartialEq, Eq)]
pub enum IpAddress {
    V4(Ipv4Addr),
    V6(Ipv6Addr),
}

/// An offset into the message for compressed name encoding.
#[derive(Debug, Clone, Copy, PartialEq, Eq, Structural)]
pub struct LabelPointer(u16);

impl LabelPointer {
    /// The offset this pointer holds.
    pub closed spec fn offset(self) -> u16 {
        self.0
    }

    pub fn new(offset: u16) -> (r: Self)
        ensures
            r.offset() == offset,
    {
        Self(offset)
    }
}

/// A name in a resource record: written out as labels, or as a pointer to
/// an earlier occurrence.
#[derive(Debug, Clone, PartialEq)]
pub enum Name {
    Labels(Vec<String>),
    Pointer(LabelPointer),
}

/// A domain name as dotted text, as the record store and the SOA hold it.
#[derive(Debug)]
pub struct DomainName(String);

impl Clone for DomainName {
    fn clone(&self) -> (r: Self)
        ensures
            r == *self,
    {
        DomainName(self.0.clone())
    }
}

impl View for DomainName {
    type V = Seq<char>;

    closed spec fn view(&self) -> Seq<char> {
        self.0@
    }
}

impl PartialEq for DomainName {
    fn eq(&self, other: &DomainName) -> (r: bool) {
        self.0 == other.0
    }
}

impl vstd::std_specs::cmp::PartialEqSpecImpl for DomainName {
    open spec fn obeys_eq_spec() -> bool {
        true
    }

    open spec fn eq_spec(&self, other: &DomainName) -> bool {
        self@ == other@
    }
}

impl Eq for DomainName {}

impl From<String> for DomainName {
    fn from(name: String) -> (r: DomainName) {
        DomainName(name)
    }
}

impl vstd::std_specs::convert::FromSpecImpl<String> for DomainName {
    open spec fn obeys_from_spec() -> bool {
        true
    }

    closed spec fn from_spec(name: String) -> DomainName {
        DomainName(name)
    }
}

impl From<&str> for DomainName {
    fn from(name: &str) -> (r: DomainName)
        ensures
            r@ == name@,
    {
        DomainName(name.to_owned())
    }
}

impl vstd::std_specs::convert::FromSpecImpl<&str> for DomainName {
    open spec fn obeys_from_spec() -> bool {
        false
    }

    open spec fn from_spec(name: &str) -> DomainName {
        arbitrary()
    }
}

/// `name` ends in `.suffix` with a dot of its own before it, compared
/// without regard to ASCII case: the one shape of name the store's suffix
/// strip accepts.
pub open spec fn suffix_strippable(name: Seq<char>, suffix: Seq<char>) -> bool {
    &&& name.len() > suffix.len()
    &&& fold(name.skip(name.len() - suffix.len())) == fold(suffix)
    &&& name[name.len() - suffix.len() - 1] == '.'
}

/// What is left of `name` once `.suffix` is taken off the end.
pub open spec fn stripped(name: Seq<char>, suffix: Seq<char>) -> Seq<char>
    recommends
        suffix_strippable(name, suffix),
{
    name.take(name.len() - suffix.len() - 1)
}

/// The stripped key, a dot and the origin reassemble the stripped name, up
/// to ASCII case: what a lookup keeps of a name is exactly the name minus
/// its zone suffix.
pub proof fn lemma_stripped_reconstructs_name(name: Seq<char>, suffix: Seq<char>)
    requires
        suffix_strippable(name, suffix),
    ensures
        fold(stripped(name, suffix) + seq!['.'] + suffix) =~= fold(name),
{
    let cut = name.len() - suffix.len();
    assert forall|j: int| 0 <= j < name.len() implies fold(
        stripped(name, suffix) + seq!['.'] + suffix,
    )[j] == fold(name)[j] by {
        if j < cut - 1 {
            assert((stripped(name, suffix) + seq!['.'] + suffix)[j] == name[j]);
        } else if j == cut - 1 {
            assert((stripped(name, suffix) + seq!['.'] + suffix)[j] == '.');
            assert(fold_char('.') == '.');
        } else {
            assert((stripped(name, suffix) + seq!['.'] + suffix)[j] == suffix[j - cut]);
            assert(fold(suffix)[j - cut] == fold(name.skip(cut))[j - cut]);
            assert(fold(name.skip(cut))[j - cut] == fold_char(name[j]));
        }
    }
}

impl DomainName {
    /// Wraps the dotted text `name`.
    pub fn new(name: String) -> (r: DomainName)
        ensures
            r@ == name@,
    {
        DomainName(name)
    }

    /// The dotted text of this name.
    pub fn text(&self) -> (r: &String)
        ensures
            r@ == self@,
    {
        &self.0
    }

    /// True when the two names are the same up to ASCII case: how the store
    /// and the resolver compare names.
    pub fn eq_ignore_ascii_case(&self, other: &DomainName) -> (r: bool)
        ensures
            r == (fold(self@) == fold(other@)),
    {
        let n = self.0.as_str().unicode_len();
        let m = other.0.as_str().unicode_len();
        if n != m {
            assert(fold(self@).len() != fold(other@).len());
            return false;
        }
        let mut j: usize = 0;
        while j < n
            invariant
                0 <= j <= n,
                n == self@.len() && n == other@.len(),
                forall|t: int| 0 <= t < j ==> fold_char(#[trigger] self@[t]) == fold_char(
                    other@[t],
                ),
            decreases n - j,
        {
            let own = to_folded(self.0.as_str().get_char(j));
            let theirs = to_folded(other.0.as_str().get_char(j));
            if own != theirs {
                assert(fold(self@)[j as int] != fold(other@)[j as int]);
                return false;
            }
            j += 1;
        }
        assert(fold(self@) =~= fold(other@));
        true
    }

    /// Takes `.suffix` off the end of this name, comparing the suffix
    /// without regard to ASCII case; `None` when the name does not end in
    /// the suffix preceded by a dot.
    pub fn strip_suffix(&self, suffix: &DomainName) -> (r: Option<DomainName>)
        ensures
            match r {
                Some(k) => suffix_strippable(self@, suffix@) && k@ == stripped(self@, suffix@),
                None => !suffix_strippable(self@, suffix@),
            },
    {
        let n = self.0.as_str().unicode_len();
        let m = suffix.0.as_str().unicode_len();
        if n <= m {
            return None;
        }
        let mut j: usize = 0;
        while j < m
            invariant
                0 <= j <= m,
                m < n == self@.len(),
                m == suffix@.len(),
                forall|t: int| 0 <= t < j ==> fold_char(#[trigger] self@[n - m + t]) == fold_char(
                    suffix@[t],
                ),
            decreases m - j,
        {
            let own = to_folded(self.0.as_str().get_char(n - m + j));
            let other = to_folded(suffix.0.as_str().get_char(j));
            if own != other {
                assert(fold(self@.skip(n - m)) != fold(suffix@)) by {
                    assert(fold(self@.skip(n - m))[j as int] == fold_char(self@[n - m + j]));
                    assert(fold(suffix@)[j as int] == fold_char(suffix@[j as int]));
                }
                return None;
            }
            j += 1;
        }
        assert(fold(self@.skip(n - m)) =~= fold(suffix@)) by {
            assert forall|t: int| 0 <= t < m implies fold(self@.skip(n - m))[t] == fold(suffix@)[t]
                by {
                assert(fold(self@.skip(n - m))[t] == fold_char(self@[n - m + t]));
            }
        }
        if self.0.as_str().get_char(n - m - 1) != '.' {
            return None;
        }
        let prefix = self.0.as_str().substring_char(0, n - m - 1);
        assert(prefix@ =~= stripped(self@, suffix@));
        Some(DomainName(String::from_str(prefix)))
    }

    /// The wire form of this name: its dot-separated chunks as labels,
    /// closed by a zero byte.
    pub fn as_u8(&self) -> (r: Vec<u8>)
        ensures
            r@ == domain_wire(self@),
    {
        let mut out: Vec<u8> = Vec::new();
        domain_encode_from(self.0.as_str(), 0, &mut out);
        assert(self@.skip(0) =~= self@);
        out
    }
}

/// Writes the chunks of `s` from position `i` on as length-prefixed labels
/// with a closing zero byte: the wire form of the dotted tail of `s`.
fn domain_encode_from(s: &str, i: usize, out: &mut Vec<u8>)
    requires
        i <= s@.len(),
    ensures
        final(out)@ == old(out)@ + domain_wire(s@.skip(i as int)),
    decreases s@.len() - i@,
{
    let ghost base = out@;
    let ghost tail = s@.skip(i as int);
    let n = s.unicode_len();
    let mut d: usize = i;
    while d < n && s.get_char(d) != '.'
        invariant
            i <= d <= n,
            n == s@.len(),
            forall|t: int| i <= t < d ==> s@[t] != '.',
        decreases n - d,
    {
        d += 1;
    }
    proof {
        assert forall|t: int| 0 <= t < d - i implies tail[t] != '.' by {
            assert(tail[t] == s@[i + t]);
        }
        if (d as int) - (i as int) < tail.len() {
            assert(tail[d - i] == s@[d as int]);
        }
        lemma_first_dot_value(tail, d - i);
    }
    out.push((d - i) as u8);
    let ghost with_len = out@;
    let mut j: usize = i;
    while j < d
        invariant
            i <= j <= d <= n,
            n == s@.len(),
            out@ == with_len + bytes_of_chars(s@.subrange(i as int, j as int)),
        decreases d - j,
    {
        let c = s.get_char(j);
        out.push(c as u8);
        assert(out@ =~= with_len + bytes_of_chars(s@.subrange(i as int, j + 1)));
        j += 1;
    }
    assert(bytes_of_chars(tail.take(d - i)) =~= bytes_of_chars(s@.subrange(i as int, d as int)));
    if d == n {
        out.push(0u8);
        proof {
            assert(bytes_of_chars(tail) =~= bytes_of_chars(s@.subrange(i as int, d as int)));
            assert(out@ =~= base + domain_wire(tail));
        }
    } else {
        domain_encode_from(s, d + 1, out);
        proof {
            assert(tail.skip((d - i) + 1) =~= s@.skip(d + 1));
            assert(out@ =~= base + domain_wire(tail));
        }
    }
}

/// Writes `labels` as length-prefixed labels with a closing zero byte.
pub fn push_labels(labels: &Vec<String>, out: &mut Vec<u8>)
    ensures
        final(out)@ == old(out)@ + labels_wire(labels.deep_view()),
{
    let ghost base = out@;
    push_label_bytes(labels, out);
    out.push(0u8);
    proof {
        lemma_labels_wire_body(labels.deep_view());
        assert(out@ =~= base + labels_wire(labels.deep_view()));
    }
}

/// Writes `labels` as length-prefixed labels, without a closing zero byte.
pub fn push_label_bytes(labels: &Vec<String>, out: &mut Vec<u8>)
    ensures
        final(out)@ == old(out)@ + labels_body(labels.deep_view()),
{
    let ghost base = out@;
    let mut i: usize = 0;
    while i < labels.len()
        invariant
            0 <= i <= labels@.len(),
            out@ == base + labels_body(labels.deep_view().take(i as int)),
        decreases labels@.len() - i,
    {
        let label: &String = &labels[i];
        let ghost before = out@;
        let len = label.as_str().unicode_len();
        out.push(len as u8);
        let mut j: usize = 0;
        while j < len
            invariant
                0 <= j <= len,
                len == label@.len(),
                out@ == before + seq![(label@.len() as u8)] + bytes_of_chars(
                    label@.take(j as int),
                ),
            decreases len - j,
        {
            let c = label.as_str().get_char(j);
            out.push(c as u8);
            assert(out@ =~= before + seq![(label@.len() as u8)] + bytes_of_chars(
                label@.take(j + 1),
            ));
            j += 1;
        }
        proof {
            assert(label@.take(len as int) =~= label@);
            assert(out@ =~= before + label_wire(label@));
            lemma_labels_body_push(labels.deep_view().take(i as int), label@);
            assert(labels.deep_view().take(i as int).push(label@) =~= labels.deep_view().take(
                i + 1,
            ));
        }
        i += 1;
    }
    proof {
        assert(labels.deep_view().take(labels@.len() as int) =~= labels.deep_view());
    }
}

/// One question of a query: the labels as parsed, the name they join to,
/// and the queried type and class.
#[derive(Debug, Clone, PartialEq, Eq)]
pub struct Question {
    pub labels: Vec<String>,
    pub name: String,
    pub query_type: QueryType,
    pub query_class: QueryClass,
}

/// The wire form of a question: the labels, then the type and class words.
pub open spec fn question_wire(q: Question) -> Seq<u8> {
    labels_wire(q.labels.deep_view()) + u16_bytes(qtype_code(q.query_type)) + u16_bytes(
        qclass_code(q.query_class),
    )
}

impl Question {
    /// The wire bytes of this question.
    pub fn as_u8(&self) -> (r: Vec<u8>)
        ensures
            r@ == question_wire(*self),
    {
        let mut out: Vec<u8> = Vec::new();
        push_labels(&self.labels, &mut out);
        push_u16(&mut out, self.query_type.as_u16());
        push_u16(&mut out, self.query_class.as_u16());
        assert(out@ =~= question_wire(*self));
        out
    }
}

/// A parsed standard query: the raw header and its single question.
#[derive(Debug, Clone, PartialEq)]
pub struct StandardQuery {
    pub header: Header,
    pub question: Question,
}

impl StandardQuery {
    /// The wire bytes of this query, written back as the codec writes any
    /// message: with the query/response bit set and zero `z` bits.
    pub fn as_u8(&self) -> (r: Vec<u8>)
        ensures
            r@ == header_wire(self.header, true) + question_wire(self.question),
    {
        let mut out = self.header.as_u8();
        let mut q = self.question.as_u8();
        out.append(&mut q);
        out
    }
}

/// The zone's start-of-authority data, fixed at startup.
#[derive(Debug, PartialEq)]
pub struct StartOfAuthority {
    pub mname: DomainName,
    pub rname: DomainName,
    pub serial: u32,
    pub refresh: u32,
    pub retry: u32,
    pub expire: u32,
    pub minimum: u32,
}

impl Clone for StartOfAuthority {
    fn clone(&self) -> (r: Self)
        ensures
            r == *self,
    {
        StartOfAuthority {
            mname: self.mname.clone(),
            rname: self.rname.clone(),
            serial: self.serial,
            refresh: self.refresh,
            retry: self.retry,
            expire: self.expire,
            minimum: self.minimum,
        }
    }
}

/// The rdata of an SOA record: both names, then the five 32-bit fields.
pub open spec fn soa_rdata_wire(soa: StartOfAuthority) -> Seq<u8> {
    domain_wire(soa.mname@) + domain_wire(soa.rname@) + u32_bytes(soa.serial) + u32_bytes(
        soa.refresh,
    ) + u32_bytes(soa.retry) + u32_bytes(soa.expire) + u32_bytes(soa.minimum)
}

/// One answer record: an address record of either family, or the zone's SOA.
#[derive(Debug, Clone, PartialEq)]
pub enum ResourceRecord {
    A { name: Name, ttl: u32, addr: Ipv4Addr },
    AAAA { name: Name, ttl: u32, addr: Ipv6Addr },
    SOA(StartOfAuthority),
}

/// The wire form of a record name: labels written out, or a pointer word
/// with its top two bits set.
pub open spec fn name_wire(n: Name) -> Seq<u8> {
    match n {
        Name::Labels(ls) => labels_wire(ls.deep_view()),
        Name::Pointer(p) => u16_bytes((49152 + (p.offset() as int) % 16384) as u16),
    }
}

/// The wire form of one resource record, uncompressed unless the name is a
/// pointer: name, type, class, ttl, rdata length, rdata.
pub open spec fn record_wire(rr: ResourceRecord) -> Seq<u8> {
    match rr {
        ResourceRecord::A { name, ttl, addr } => name_wire(name) + u16_bytes(1) + u16_bytes(1)
            + u32_bytes(ttl) + u16_bytes(4) + addr.octets@,
        ResourceRecord::AAAA { name, ttl, addr } => name_wire(name) + u16_bytes(28) + u16_bytes(1)
            + u32_bytes(ttl) + u16_bytes(16) + addr.octets@,
        ResourceRecord::SOA(soa) => domain_wire(soa.mname@) + u16_bytes(6) + u16_bytes(1)
            + u32_bytes(soa.minimum) + u16_bytes(soa_rdata_wire(soa).len() as u16) + soa_rdata_wire(
            soa,
        ),
    }
}

impl Name {
    /// The wire bytes of this name.
    pub fn as_u8(&self) -> (r: Vec<u8>)
        ensures
            r@ == name_wire(*self),
    {
        match self {
            Name::Labels(labels) => {
                let mut out: Vec<u8> = Vec::new();
                push_labels(labels, &mut out);
                out
            },
            Name::Pointer(pointer) => {
                let mut out: Vec<u8> = Vec::new();
                push_u16(&mut out, 49152 + pointer.0 % 16384);
                assert(out@ =~= name_wire(*self));
                out
            },
        }
    }
}

impl ResourceRecord {
    /// The wire bytes of this record.
    pub fn as_u8(&self) -> (r: Vec<u8>)
        ensures
            r@ == record_wire(*self),
    {
        match self {
            ResourceRecord::A { name, ttl, addr } => {
                let mut out = name.as_u8();
                push_u16(&mut out, 1);
                push_u16(&mut out, 1);
                push_u32(&mut out, *ttl);
                push_u16(&mut out, 4);
                let mut k: usize = 0;
                let ghost before = out@;
                while k < 4
                    invariant
                        0 <= k <= 4,
                        out@ == before + addr.octets@.take(k as int),
                    decreases 4 - k,
                {
                    out.push(addr.octets[k]);
                    assert(out@ =~= before + addr.octets@.take(k + 1));
                    k += 1;
                }
                assert(out@ =~= record_wire(*self));
                out
            },
            ResourceRecord::AAAA { name, ttl, addr } => {
                let mut out = name.as_u8();
                push_u16(&mut out, 28);
                push_u16(&mut out, 1);
                push_u32(&mut out, *ttl);
                push_u16(&mut out, 16);
                let mut k: usize = 0;
                let ghost before = out@;
                while k < 16
                    invariant
                        0 <= k <= 16,
                        out@ == before + addr.octets@.take(k as int),
                    decreases 16 - k,
                {
                    out.push(addr.octets[k]);
                    assert(out@ =~= before + addr.octets@.take(k + 1));
                    k += 1;
                }
                assert(out@ =~= record_wire(*self));
                out
            },
            ResourceRecord::SOA(soa) => {
                let mut rdata = soa.mname.as_u8();
                let mut rname_bytes = soa.rname.as_u8();
                rdata.append(&mut rname_bytes);
                push_u32(&mut rdata, soa.serial);
                push_u32(&mut rdata, soa.refresh);
                push_u32(&mut rdata, soa.retry);
                push_u32(&mut rdata, soa.expire);
                push_u32(&mut rdata, soa.minimum);
                assert(rdata@ =~= soa_rdata_wire(*soa));
                let mut out = soa.mname.as_u8();
                push_u16(&mut out, 6);
                push_u16(&mut out, 1);
                push_u32(&mut out, soa.minimum);
                push_u16(&mut out, rdata.len() as u16);
                out.append(&mut rdata);
                assert(out@ =~= record_wire(*self));
                out
            },
        }
    }
}

} // verus!
