//! Responses and their serialization. A response header carries only what
//! the response path can vary; the fixed bits (query/response, opcode,
//! zeroed `z`) are written by the encoder. A response that would not fit in
//! one 512-byte datagram is truncated to its header and question, with the
//! truncation bit set.

use vstd::prelude::*;

use crate::dns::Header as RawHeader;
use crate::dns::OpCode;
use crate::dns::Question;
use crate::dns::ResourceRecord;
use crate::dns::ResponseCode;
use crate::dns::header_wire;
use crate::dns::question_wire;
use crate::dns::record_wire;

verus! {

/// A response code, as the resolver sets it.
#[derive(Debug, Copy, Clone, PartialEq, Eq, Structural)]
pub enum Rcode {
    NoError,
    FormatError,
    ServerFailure,
    NameError,
    NotImplemented,
    Refused,
}

/// The four-bit wire value of a response code.
pub open spec fn rcode_wire_code(rc: Rcode) -> u8 {
    match rc {
        Rcode::NoError => 0,
        Rcode::FormatError => 1,
        Rcode::ServerFailure => 2,
        Rcode::NameError => 3,
        Rcode::NotImplemented => 4,
        Rcode::Refused => 5,
    }
}

/// The response code that the wire value `code` stands for; every value
/// above five reads as `Refused`.
pub open spec fn rcode_of_wire(code: u8) -> Rcode {
    if code == 0 {
        Rcode::NoError
    } else if code == 1 {
        Rcode::FormatError
    } else if code == 2 {
        Rcode::ServerFailure
    } else if code == 3 {
        Rcode::NameError
    } else if code == 4 {
        Rcode::NotImplemented
    } else {
        Rcode::Refused
    }
}

impl Rcode {
    pub fn from_u8(code: u8) -> (r: Rcode)
        ensures
            r == rcode_of_wire(code),
    {
        if code == 0 {
            Rcode::NoError
        } else if code == 1 {
            Rcode::FormatError
        } else if code == 2 {
            Rcode::ServerFailure
        } else if code == 3 {
            Rcode::NameError
        } else if code == 4 {
            Rcode::NotImplemented
        } else {
            Rcode::Refused
        }
    }

    pub fn as_u8(self) -> (r: u8)
        ensures
            r == rcode_wire_code(self),
    {
        match self {
            Rcode::NoError => 0,
            Rcode::FormatError => 1,
            Rcode::ServerFailure => 2,
            Rcode::NameError => 3,
            Rcode::NotImplemented => 4,
            Rcode::Refused => 5,
        }
    }
}

/// The raw header code that stands for `rc`.
pub open spec fn response_code_of(rc: Rcode) -> ResponseCode {
    match rc {
        Rcode::NoError => ResponseCode::NoError,
        Rcode::FormatError => ResponseCode::FormatError,
        Rcode::ServerFailure => ResponseCode::ServerFailure,
        Rcode::NameError => ResponseCode::NameError,
        Rcode::NotImplemented => ResponseCode::NotImplemented,
        Rcode::Refused => ResponseCode::Refused,
    }
}

/// A response header: what the response path can vary. The omitted fields
/// are fixed on every outgoing response — the opcode is a standard query's,
/// the section counts other than the answer count are zero.
#[derive(Debug, Clone, Copy, PartialEq, Eq, Structural)]
pub struct Header {
    pub id: u16,
    pub truncated: bool,
    pub authoritative_answer: bool,
    pub recursion_desired: bool,
    pub recursion_available: bool,
    pub response_code: Rcode,
    pub qd_count: u16,
}

/// The raw header that `h` stands for, with `an_count` answers.
pub open spec fn raw_header_of(h: Header, an_count: u16) -> RawHeader {
    RawHeader {
        id: h.id,
        opcode: OpCode::StandardQuery,
        truncated: h.truncated,
        authoritative_answer: h.authoritative_answer,
        recursion_desired: h.recursion_desired,
        recursion_available: h.recursion_available,
        response_code: response_code_of(h.response_code),
        qd_count: h.qd_count,
        an_count,
        ns_count: 0,
        ar_count: 0,
    }
}

impl Header {
    /// Builds the raw header this response header stands for.
    pub fn as_raw(&self, an_count: u16) -> (r: RawHeader)
        ensures
            r == raw_header_of(*self, an_count),
    {
        let response_code = match self.response_code {
            Rcode::NoError => ResponseCode::NoError,
            Rcode::FormatError => ResponseCode::FormatError,
            Rcode::ServerFailure => ResponseCode::ServerFailure,
            Rcode::NameError => ResponseCode::NameError,
            Rcode::NotImplemented => ResponseCode::NotImplemented,
            Rcode::Refused => ResponseCode::Refused,
        };
        RawHeader {
            id: self.id,
            opcode: OpCode::StandardQuery,
            truncated: self.truncated,
            authoritative_answer: self.authoritative_answer,
            recursion_desired: self.recursion_desired,
            recursion_available: self.recursion_available,
            response_code,
            qd_count: self.qd_count,
            an_count,
            ns_count: 0,
            ar_count: 0,
        }
    }
}

/// The wire form of the records, in order.
pub open spec fn records_wire(rs: Seq<ResourceRecord>) -> Seq<u8>
    decreases rs.len(),
{
    if rs.len() == 0 {
        Seq::empty()
    } else {
        record_wire(rs[0]) + records_wire(rs.drop_first())
    }
}

/// Appending one record appends its wire form.
pub proof fn lemma_records_wire_push(rs: Seq<ResourceRecord>, rr: ResourceRecord)
    ensures
        records_wire(rs.push(rr)) =~= records_wire(rs) + record_wire(rr),
    decreases rs.len(),
{
    if rs.len() == 0 {
        assert(rs.push(rr).drop_first() =~= Seq::<ResourceRecord>::empty());
        assert(rs.push(rr)[0] == rr);
        assert(records_wire(Seq::<ResourceRecord>::empty()) =~= Seq::<u8>::empty());
        assert(records_wire(rs.push(rr)) =~= record_wire(rr));
        assert(records_wire(rs) + record_wire(rr) =~= record_wire(rr));
    } else {
        assert(rs.push(rr).drop_first() =~= rs.drop_first().push(rr));
        lemma_records_wire_push(rs.drop_first(), rr);
        assert(rs.push(rr)[0] == rs[0]);
        assert(records_wire(rs.push(rr)) == record_wire(rs[0]) + records_wire(
            rs.drop_first().push(rr),
        ));
        assert(records_wire(rs.push(rr)) =~= (record_wire(rs[0]) + records_wire(rs.drop_first()))
            + record_wire(rr));
    }
}

/// A standard-query response: the header, the echoed question, and the
/// answer records.
#[derive(Debug, Clone, PartialEq)]
pub struct StandardQuery {
    pub header: Header,
    pub question: Question,
    pub answer: Vec<ResourceRecord>,
}

/// The full wire form of a response, before the datagram size is looked at.
pub open spec fn response_wire_full(r: StandardQuery) -> Seq<u8> {
    header_wire(raw_header_of(r.header, r.answer@.len() as u16), true) + question_wire(r.question)
        + records_wire(r.answer@)
}

/// The header `h` with the truncation bit set.
pub open spec fn truncated_header(h: Header) -> Header {
    Header {
        id: h.id,
        truncated: true,
        authoritative_answer: h.authoritative_answer,
        recursion_desired: h.recursion_desired,
        recursion_available: h.recursion_available,
        response_code: h.response_code,
        qd_count: h.qd_count,
    }
}

/// The bytes a response goes on the wire as: the full form when it fits a
/// 512-byte datagram; otherwise just the header — truncation bit set, no
/// answers counted — and the question.
pub open spec fn response_wire(r: StandardQuery) -> Seq<u8> {
    if response_wire_full(r).len() > 512 {
        header_wire(raw_header_of(truncated_header(r.header), 0), true) + question_wire(r.question)
    } else {
        response_wire_full(r)
    }
}

impl StandardQuery {
    /// Serializes this response, truncating it to header and question with
    /// the truncation bit set when it would exceed one 512-byte datagram.
    pub fn as_u8(self) -> (r: Vec<u8>)
        ensures
            r@ == response_wire(self),
    {
        let raw = self.header.as_raw(self.answer.len() as u16);
        let mut out = raw.as_u8();
        let mut q = self.question.as_u8();
        out.append(&mut q);
        let ghost prefix = out@;
        let mut i: usize = 0;
        while i < self.answer.len()
            invariant
                0 <= i <= self.answer@.len(),
                out@ == prefix + records_wire(self.answer@.take(i as int)),
            decreases self.answer@.len() - i,
        {
            let mut rr = self.answer[i].as_u8();
            out.append(&mut rr);
            proof {
                lemma_records_wire_push(self.answer@.take(i as int), self.answer@[i as int]);
                assert(self.answer@.take(i as int).push(self.answer@[i as int])
                    =~= self.answer@.take(i + 1));
            }
            i += 1;
        }
        proof {
            assert(self.answer@.take(self.answer@.len() as int) =~= self.answer@);
            assert(out@ =~= response_wire_full(self));
        }
        if out.len() > 512 {
            let short_header = Header { truncated: true, ..self.header };
            let raw2 = short_header.as_raw(0);
            let mut short = raw2.as_u8();
            let mut q2 = self.question.as_u8();
            short.append(&mut q2);
            assert(short@ =~= response_wire(self));
            return short;
        }
        out
    }
}

/// The header-only reply for an unsupported opcode; the raw header carries
/// the echoed id and flags.
#[derive(Debug, Clone, PartialEq)]
pub struct NotImplemented {
    pub header: RawHeader,
}

impl NotImplemented {
    /// The wire bytes of the reply: just the header, marked as a response.
    pub fn as_u8(self) -> (r: Vec<u8>)
        ensures
            r@ == header_wire(self.header, true),
    {
        self.header.as_u8()
    }
}

/// Any outgoing message: a standard-query response or the header-only
/// not-implemented reply.
#[derive(Debug, Clone, PartialEq)]
pub enum Response {
    StandardQuery(StandardQuery),
    NotImplemented(NotImplemented),
}

/// The wire bytes of any outgoing message.
pub open spec fn response_bytes(r: Response) -> Seq<u8> {
    match r {
        Response::StandardQuery(sq) => response_wire(sq),
        Response::NotImplemented(n) => header_wire(n.header, true),
    }
}

impl Response {
    /// Serializes this message.
    pub fn as_u8(self) -> (r: Vec<u8>)
        ensures
            r@ == response_bytes(self),
    {
        match self {
            Response::StandardQuery(r) => r.as_u8(),
            Response::NotImplemented(r) => r.as_u8(),
        }
    }
}

} // verus!
