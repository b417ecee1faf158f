//! The framing codec between the socket and the parser. Datagrams arrive in
//! a `bytes::BytesMut`; the buffer's contents are named by `buf_bytes` and
//! every operation on it goes through a trusted wrapper, so the decode and
//! encode contracts below speak of exactly the bytes in the buffer.
//!
//! Decoding consumes nothing until a whole message is there: fewer than
//! twelve bytes, or a question still missing bytes, decide nothing and leave
//! the buffer as it was. A complete message empties the buffer — trailing
//! bytes are discarded, DNS over UDP being one message per datagram — and so
//! does a malformed one, so the codec recovers for the next datagram.

use vstd::prelude::*;

use bytes::BytesMut;

use crate::dns::Header;
use crate::dns::StandardQuery;
use crate::dns::retained_header;
use crate::dns::response::Response;
use crate::dns::response::response_bytes;
use crate::parser;
use crate::parser::parse_question_spec;
use crate::parser::question_end_at;
use crate::parser::question_matches;
use crate::parser::standard_header;

verus! {

#[verifier::external_type_specification]
#[verifier::external_body]
pub struct ExBytesMut(BytesMut);

/// The bytes a buffer holds, in order.
pub uninterp spec fn buf_bytes(b: BytesMut) -> Seq<u8>;

/// Relies on `BytesMut::len`: the number of bytes the buffer holds.
#[verifier::external_body]
pub(crate) fn buf_len(b: &BytesMut) -> (n: usize)
    ensures
        n == buf_bytes(*b).len(),
{
    b.len()
}

/// Relies on `BytesMut`'s `AsRef<[u8]>`: the buffer's bytes, contiguous and
/// in order.
#[verifier::external_body]
pub(crate) fn buf_as_slice(b: &BytesMut) -> (s: &[u8])
    ensures
        s@ == buf_bytes(*b),
{
    b.as_ref()
}

/// Relies on `BytesMut::clear`: removes all bytes.
#[verifier::external_body]
pub(crate) fn buf_clear(b: &mut BytesMut)
    ensures
        buf_bytes(*final(b)) == Seq::<u8>::empty(),
{
    b.clear();
}

/// Relies on `BytesMut::extend_from_slice`: appends the bytes, growing the
/// buffer as needed.
#[verifier::external_body]
pub(crate) fn buf_put(b: &mut BytesMut, data: &[u8])
    ensures
        buf_bytes(*final(b)) == buf_bytes(*old(b)) + data@,
{
    b.extend_from_slice(data);
}

/// The stateless framing codec.
#[derive(Debug, Default)]
pub struct Codec;

/// One decoded message: a standard query, or the retained header of a
/// request with any other opcode together with the unread rest of its
/// datagram, so a reply can echo the id and flags.
#[derive(Debug, Clone, PartialEq)]
pub enum Message {
    Query(StandardQuery),
    Unsupported(Header, Vec<u8>),
}

/// The codec's failure: the datagram cannot be a DNS message.
#[derive(Debug, Clone, PartialEq)]
pub enum Error {
    Decoding,
}

impl Codec {
    /// Decodes one message from the front of `buf`.
    ///
    /// Nothing is decided while the buffer is shorter than a header or the
    /// question is still incomplete: the buffer stays untouched and more
    /// input may finish the message. A complete standard query, or a header
    /// with an unsupported opcode, comes back as `Some` with the buffer
    /// emptied. Malformed bytes clear the buffer and fail, so the next
    /// datagram starts clean.
    pub fn decode(&mut self, buf: &mut BytesMut) -> (r: Result<Option<Message>, Error>)
        ensures
            match r {
                Ok(ro) => match ro {
                    None => {
                        &&& buf_bytes(*final(buf)) == buf_bytes(*old(buf))
                        &&& (buf_bytes(*old(buf)).len() < 12 || (standard_header(
                            buf_bytes(*old(buf)),
                        ) && parse_question_spec(buf_bytes(*old(buf)), 12) is Incomplete))
                    },
                    Some(m) => {
                        &&& buf_bytes(*final(buf)).len() == 0
                        &&& match m {
                            Message::Query(q) => {
                                &&& standard_header(buf_bytes(*old(buf)))
                                &&& q.header == retained_header(buf_bytes(*old(buf)))
                                &&& question_matches(
                                    q.question,
                                    buf_bytes(*old(buf)),
                                    12,
                                    question_end_at(buf_bytes(*old(buf)), 12),
                                )
                            },
                            Message::Unsupported(h, rest) => {
                                &&& buf_bytes(*old(buf)).len() >= 12
                                &&& !standard_header(buf_bytes(*old(buf)))
                                &&& h == retained_header(buf_bytes(*old(buf)))
                                &&& rest@ == buf_bytes(*old(buf)).skip(12)
                            },
                        }
                    },
                },
                Err(e) => {
                    &&& e == Error::Decoding
                    &&& standard_header(buf_bytes(*old(buf)))
                    &&& parse_question_spec(buf_bytes(*old(buf)), 12) is Error
                    &&& buf_bytes(*final(buf)).len() == 0
                },
            },
    {
        let len = buf_len(buf);
        if len == 0 {
            return Ok(None);
        }
        if len < 12 {
            return Ok(None);
        }
        let decision: Result<Option<Message>, Error> = {
            let s = buf_as_slice(buf);
            match parser::dns_query(s) {
                Ok((_consumed, query)) => Ok(Some(Message::Query(query))),
                Err(parser::Error::NoStdQuery(header, rem)) => Ok(
                    Some(Message::Unsupported(header, rem)),
                ),
                Err(parser::Error::Incomplete) => Ok(None),
                Err(parser::Error::Parser) => Err(Error::Decoding),
            }
        };
        match decision {
            Ok(Some(m)) => {
                buf_clear(buf);
                Ok(Some(m))
            },
            Ok(None) => Ok(None),
            Err(e) => {
                buf_clear(buf);
                Err(e)
            },
        }
    }

    /// Serializes `response` onto the end of `buf`.
    pub fn encode(&mut self, response: Response, buf: &mut BytesMut)
        ensures
            buf_bytes(*final(buf)) == buf_bytes(*old(buf)) + response_bytes(response),
    {
        let data = response.as_u8();
        buf_put(buf, data.as_slice());
    }
}

} // verus!
