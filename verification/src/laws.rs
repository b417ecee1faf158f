//! The laws that hold across the library's parts: what a decoded response
//! header still says about the request, that well-formed datagrams survive
//! the decode–encode round trip byte for byte, how the codec behaves on a
//! slowly arriving query, that lookups never leave the zone, and that a
//! successful update is visible to the very next matching query.

use vstd::prelude::*;

use crate::dns::QueryType;
use crate::dns::ResourceRecord;
use crate::dns::StandardQuery;
use crate::dns::StartOfAuthority;
use crate::dns::header_wire;
use crate::dns::lemma_header_reencode;
use crate::dns::lemma_header_round_trip;
use crate::dns::parsed_header;
use crate::dns::retained_header;
use crate::dns::qclass_code;
use crate::dns::qclass_of;
use crate::dns::qtype_code;
use crate::dns::qtype_of;
use crate::dns::question_wire;
use crate::dns::qr_bit;
use crate::dns::response::Rcode;
use crate::dns::response::raw_header_of;
use crate::dns::response::response_wire;
use crate::dns::response::response_wire_full;
use crate::dns::server::answer_matches;
use crate::dns::server::expected_rcode;
use crate::dns::server::response_header_for;
use crate::dns::stripped;
use crate::dns::suffix_strippable;
use crate::dns::z_bits;
use crate::parser::LabelsParse;
use crate::parser::QuestionParse;
use crate::parser::labels_chars;
use crate::parser::lemma_labels_done_bounds;
use crate::parser::lemma_labels_round_trip;
use crate::parser::lemma_question_done_bounds;
use crate::parser::lemma_question_prefix_incomplete;
use crate::parser::parse_labels_spec;
use crate::parser::parse_question_spec;
use crate::parser::question_end_at;
use crate::parser::question_matches;
use crate::parser::standard_header;
use crate::storage::Storage;
use crate::storage::SubDomainEntry;
use crate::web::UpdateInfo;
use crate::web::updated_entry;
use crate::wire::be16;
use crate::wire::fold;
use crate::wire::u16_bytes;

verus! {

/// The header fields of a byte sequence are read from its first twelve
/// bytes alone.
proof fn lemma_header_depends_on_prefix(a: Seq<u8>, b: Seq<u8>)
    requires
        a.len() >= 12,
        b.len() >= 12,
        forall|i: int| 0 <= i < 12 ==> a[i] == b[i],
    ensures
        parsed_header(a) == parsed_header(b),
        qr_bit(a) == qr_bit(b),
        z_bits(a) == z_bits(b),
{
    assert(be16(a, 0) == be16(b, 0));
    assert(be16(a, 4) == be16(b, 4));
    assert(be16(a, 6) == be16(b, 6));
    assert(be16(a, 8) == be16(b, 8));
    assert(be16(a, 10) == be16(b, 10));
}

/// Decoding the header of an encoded response gives back what the resolver
/// decided for the request: the request's id, truncation and
/// recursion-desired bits, the authority claim, no recursion offered, and
/// the query/response bit set — nothing of the request's header is lost on
/// the way out and back but the reserved bits, which were never kept.
/// (Stated of responses that fit one datagram: a longer one goes out with
/// its truncation bit forced on, so its truncation flag no longer matches
/// the request's.)
pub proof fn lemma_response_header_round_trip(
    q: StandardQuery,
    rc: Rcode,
    r: crate::dns::response::StandardQuery,
)
    requires
        r.header == response_header_for(q, rc),
        response_wire_full(r).len() <= 512,
    ensures
        response_wire(r).len() >= 12,
        parsed_header(response_wire(r)).id == q.header.id,
        parsed_header(response_wire(r)).truncated == q.header.truncated,
        parsed_header(response_wire(r)).recursion_desired == q.header.recursion_desired,
        parsed_header(response_wire(r)).authoritative_answer == true,
        parsed_header(response_wire(r)).recursion_available == false,
        parsed_header(response_wire(r)).qd_count == q.header.qd_count,
        qr_bit(response_wire(r)),
{
    let raw = raw_header_of(r.header, r.answer@.len() as u16);
    lemma_header_round_trip(raw, true);
    let w = response_wire(r);
    assert(w =~= response_wire_full(r));
    assert forall|i: int| 0 <= i < 12 implies w[i] == header_wire(raw, true)[i] by {}
    lemma_header_depends_on_prefix(w, header_wire(raw, true));
}

/// A well-formed standard-query datagram — one whose header parses with the
/// standard opcode and whose question parses — re-encodes byte for byte
/// from what the decoder kept. Stated of datagrams carrying nothing the
/// decoder drops or the encoder fixes: the query/response bit is written
/// back as one, the reserved bits as zero, a response-code word above five
/// would come back as the refused code, and the authoritative-answer bit
/// and the non-question section counts are not retained, so they must be
/// zero on the wire.
pub proof fn lemma_query_round_trip(d: Seq<u8>, q: StandardQuery)
    requires
        standard_header(d),
        q.header == retained_header(d),
        parsed_header(d) == retained_header(d),
        question_matches(q.question, d, 12, question_end_at(d, 12)),
        qr_bit(d),
        z_bits(d) == 0,
        (d[3] as int) % 16 <= 5,
    ensures
        header_wire(q.header, true) + question_wire(q.question) =~= d.take(
            question_end_at(d, 12),
        ),
{
    assert(q.header == parsed_header(d));
    lemma_header_reencode(d);
    let qp = parse_question_spec(d, 12);
    let (labels, qtype, qclass, end) = match qp {
        QuestionParse::Done { labels, qtype, qclass, end } => (labels, qtype, qclass, end),
        _ => (Seq::empty(), 0u16, 0u16, 0int),
    };
    lemma_question_done_bounds(d, 12);
    let lp = parse_labels_spec(d, 12);
    let l_end = match lp {
        LabelsParse::Done { end, .. } => end,
        _ => 0int,
    };
    lemma_labels_done_bounds(d, 12);
    lemma_labels_round_trip(d, 12);
    assert(end == l_end + 4);
    assert(crate::wire::labels_wire(labels_chars(labels)) =~= d.subrange(12, l_end));
    assert(q.question.labels.deep_view() == labels_chars(labels));
    assert(crate::wire::labels_wire(q.question.labels.deep_view()) =~= d.subrange(12, l_end));
    assert(qtype_code(q.question.query_type) == qtype) by {
        assert(q.question.query_type == qtype_of(qtype));
    }
    assert(qclass_code(q.question.query_class) == qclass) by {
        assert(Some(q.question.query_class) == qclass_of(qclass));
    }
    assert(u16_bytes(qtype) =~= seq![d[l_end], d[l_end + 1]]);
    assert(u16_bytes(qclass) =~= seq![d[l_end + 2], d[l_end + 3]]);
    assert(header_wire(q.header, true) =~= d.take(12));
    assert(question_wire(q.question) =~= d.subrange(12, end));
    assert(header_wire(q.header, true) + question_wire(q.question) =~= d.take(end));
}

/// Feeding the codec a proper prefix of a valid query datagram meets
/// exactly the condition under which its decode contract answers `None`
/// with the buffer kept: the prefix is either shorter than a header, or a
/// standard-query header whose question is still incomplete. No prefix ever
/// reads as malformed or as some other message.
pub proof fn lemma_slow_reader_prefix(d: Seq<u8>, k: int)
    requires
        standard_header(d),
        parse_question_spec(d, 12) matches QuestionParse::Done { end, .. } && end == d.len(),
        0 <= k < d.len(),
    ensures
        d.take(k).len() < 12 || (standard_header(d.take(k)) && parse_question_spec(
            d.take(k),
            12,
        ) is Incomplete),
{
    if k >= 12 {
        let p = d.take(k);
        assert forall|i: int| 0 <= i < 12 implies p[i] == d[i] by {}
        lemma_header_depends_on_prefix(p, d);
        lemma_question_done_bounds(d, 12);
        lemma_question_prefix_incomplete(d, 12, k);
    }
}

/// Once the whole valid query datagram is in the buffer, the codec's decode
/// contract leaves only one arm open: a decoded standard query. The bytes
/// are long enough, not incomplete, not malformed, and not of another
/// opcode.
pub proof fn lemma_slow_reader_complete(d: Seq<u8>)
    requires
        standard_header(d),
        parse_question_spec(d, 12) matches QuestionParse::Done { end, .. } && end == d.len(),
    ensures
        d.len() >= 12,
        !(parse_question_spec(d, 12) is Incomplete),
        !(parse_question_spec(d, 12) is Error),
{
}

/// Lookups are scoped to the zone: a name that is not strictly under the
/// origin never resolves, whatever the store holds.
pub proof fn lemma_out_of_zone_names_never_resolve(st: Storage, name: Seq<char>)
    requires
        !suffix_strippable(name, st.origin()),
    ensures
        st.spec_get(name) is None,
{
}

/// A successful update is visible to the very next matching query: once the
/// store moves from `st0` to `st1` the way `update_address_handler` says a
/// 204 moves it, the updated name resolves to the entry with the submitted
/// address, the resolver owes a clean answer, and any answer list it is
/// allowed to return holds exactly one record carrying that address.
pub proof fn lemma_update_then_query(
    st0: Storage,
    st1: Storage,
    info: UpdateInfo,
    e: SubDomainEntry,
    soa: StartOfAuthority,
    q: StandardQuery,
)
    requires
        st0.spec_get(info.hostname@) == Some(e),
        st1.origin() == st0.origin(),
        forall|n2: Seq<char>|
            #[trigger] st1.spec_get(n2) == (if suffix_strippable(n2, st0.origin()) && fold(
                stripped(n2, st0.origin()),
            ) == fold(stripped(info.hostname@, st0.origin())) {
                Some(updated_entry(e, info.ip))
            } else {
                st0.spec_get(n2)
            }),
        q.question.name@ == info.hostname@,
        q.header.qd_count <= 1,
        q.question.query_type == (match info.ip {
            crate::dns::IpAddress::V4(_) => QueryType::A,
            crate::dns::IpAddress::V6(_) => QueryType::AAAA,
        }),
    ensures
        st1.spec_get(q.question.name@) == Some(updated_entry(e, info.ip)),
        expected_rcode(soa, st1, q) == Rcode::NoError,
        forall|ans: Seq<ResourceRecord>|
            #[trigger] answer_matches(soa, st1, q, ans) ==> ans.len() == 1 && (match info.ip {
                crate::dns::IpAddress::V4(a) => ans[0] matches ResourceRecord::A { addr, .. }
                    && addr == a,
                crate::dns::IpAddress::V6(a) => ans[0] matches ResourceRecord::AAAA { addr, .. }
                    && addr == a,
            }),
{
    assert(suffix_strippable(info.hostname@, st0.origin()));
    assert(st1.spec_get(info.hostname@) == Some(updated_entry(e, info.ip)));
}

/// An SOA query for the zone origin — compared, like every name, without
/// regard to ASCII case — is owed exactly one answer, the zone's own SOA
/// record, with no error; an SOA query for any other name is owed an empty
/// answer with the name error.
pub proof fn lemma_soa_query(soa: StartOfAuthority, storage: Storage, q: StandardQuery)
    requires
        q.question.query_type == QueryType::SOA,
        q.header.qd_count <= 1,
    ensures
        fold(soa.mname@) == fold(q.question.name@) ==> {
            &&& expected_rcode(soa, storage, q) == Rcode::NoError
            &&& forall|ans: Seq<ResourceRecord>|
                #[trigger] answer_matches(soa, storage, q, ans) ==> ans.len() == 1 && ans[0]
                    == ResourceRecord::SOA(soa)
        },
        fold(soa.mname@) != fold(q.question.name@) ==> {
            &&& expected_rcode(soa, storage, q) == Rcode::NameError
            &&& forall|ans: Seq<ResourceRecord>|
                #[trigger] answer_matches(soa, storage, q, ans) ==> ans.len() == 0
        },
{
}

} // verus!
