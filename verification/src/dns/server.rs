//! The resolver: a pure function from the zone's SOA, a snapshot of the
//! store, and a parsed query to the response. The event loop around it owns
//! the socket and the lock; nothing here does I/O.

use vstd::prelude::*;

use crate::dns::DomainName;
use crate::dns::Header;
use crate::dns::Name;
use crate::dns::QueryType;
use crate::dns::ResourceRecord;
use crate::dns::ResponseCode;
use crate::dns::StandardQuery;
use crate::dns::StartOfAuthority;
use crate::dns::response;
use crate::dns::response::Rcode;
use crate::storage::Storage;
use crate::wire::fold;

verus! {

/// The response header the resolver builds: id, truncation and
/// recursion-desired copied from the query, the answer marked authoritative,
/// recursion never available, and the question count echoed.
pub open spec fn response_header_for(q: StandardQuery, rc: Rcode) -> response::Header {
    response::Header {
        id: q.header.id,
        truncated: q.header.truncated,
        authoritative_answer: true,
        recursion_desired: q.header.recursion_desired,
        recursion_available: false,
        response_code: rc,
        qd_count: q.header.qd_count,
    }
}

/// The store (or, for SOA, the zone data) holds something to answer `q`
/// with: an address of the queried family under the queried name, or the
/// SOA when the queried name is the origin itself.
pub open spec fn has_answer(soa: StartOfAuthority, storage: Storage, q: StandardQuery) -> bool {
    match q.question.query_type {
        QueryType::A => storage.spec_get(q.question.name@) matches Some(e) && e.ipv4 is Some,
        QueryType::AAAA => storage.spec_get(q.question.name@) matches Some(e) && e.ipv6 is Some,
        QueryType::SOA => fold(soa.mname@) == fold(q.question.name@),
        _ => false,
    }
}

/// The response code the resolver must set: a format error for more than
/// one question; no error for query types it serves no records for; no
/// error when an answer exists; the name error otherwise. In particular, a
/// registered name whose queried address family is still unset is a name
/// error, as is any name outside the zone.
pub open spec fn expected_rcode(soa: StartOfAuthority, storage: Storage, q: StandardQuery) -> Rcode {
    if q.header.qd_count > 1 {
        Rcode::FormatError
    } else if !(q.question.query_type is A || q.question.query_type is AAAA
        || q.question.query_type is SOA) {
        Rcode::NoError
    } else if has_answer(soa, storage, q) {
        Rcode::NoError
    } else {
        Rcode::NameError
    }
}

/// The answer list is exactly what the query deserves: one A or AAAA record
/// with the stored address, a 15-second ttl and the question's own labels;
/// one SOA record with the zone data; or nothing.
pub open spec fn answer_matches(
    soa: StartOfAuthority,
    storage: Storage,
    q: StandardQuery,
    ans: Seq<ResourceRecord>,
) -> bool {
    if q.header.qd_count > 1 {
        ans.len() == 0
    } else {
        match q.question.query_type {
            QueryType::A => match storage.spec_get(q.question.name@) {
                Some(e) => match e.ipv4 {
                    Some(ip) => ans.len() == 1 && (ans[0] matches ResourceRecord::A {
                        name,
                        ttl,
                        addr,
                    } && ttl == 15 && addr == ip && (name matches Name::Labels(ls)
                        && ls.deep_view() == q.question.labels.deep_view())),
                    None => ans.len() == 0,
                },
                None => ans.len() == 0,
            },
            QueryType::AAAA => match storage.spec_get(q.question.name@) {
                Some(e) => match e.ipv6 {
                    Some(ip) => ans.len() == 1 && (ans[0] matches ResourceRecord::AAAA {
                        name,
                        ttl,
                        addr,
                    } && ttl == 15 && addr == ip && (name matches Name::Labels(ls)
                        && ls.deep_view() == q.question.labels.deep_view())),
                    None => ans.len() == 0,
                },
                None => ans.len() == 0,
            },
            QueryType::SOA => if fold(soa.mname@) == fold(q.question.name@) {
                ans.len() == 1 && ans[0] == ResourceRecord::SOA(soa)
            } else {
                ans.len() == 0
            },
            _ => ans.len() == 0,
        }
    }
}

/// Resolves one standard query against the zone data and a store snapshot.
///
/// The header copies the query's id, truncation and recursion-desired bits
/// and question count, claims authority and offers no recursion. A query
/// carrying more than one question is answered empty with a format error.
/// A, AAAA and SOA queries are answered from the store and the zone data,
/// matching names without regard to ASCII case;
/// every other type gets an empty, error-free response. When a serviceable
/// type has no record — name out of zone, unknown subdomain, or address of
/// that family unset — the code is the name error.
pub fn handle_standard_query(
    soa: &StartOfAuthority,
    storage: &Storage,
    query: StandardQuery,
) -> (r: response::StandardQuery)
    ensures
        r.header == response_header_for(query, expected_rcode(*soa, *storage, query)),
        r.question == query.question,
        answer_matches(*soa, *storage, query, r.answer@),
{
    let header = response::Header {
        id: query.header.id,
        truncated: query.header.truncated,
        authoritative_answer: true,
        recursion_desired: query.header.recursion_desired,
        recursion_available: false,
        response_code: Rcode::NoError,
        qd_count: query.header.qd_count,
    };
    if query.header.qd_count > 1 {
        return response::StandardQuery {
            header: response::Header { response_code: Rcode::FormatError, ..header },
            question: query.question,
            answer: Vec::new(),
        };
    }
    let serviceable = match query.question.query_type {
        QueryType::A => true,
        QueryType::AAAA => true,
        QueryType::SOA => true,
        _ => false,
    };
    if !serviceable {
        return response::StandardQuery { header, question: query.question, answer: Vec::new() };
    }
    let domain_name = DomainName::new(query.question.name.clone());
    let mut answer: Vec<ResourceRecord> = Vec::new();
    match query.question.query_type {
        QueryType::A => {
            match storage.get(&domain_name) {
                Some(entry) => match entry.ipv4 {
                    Some(ip) => {
                        answer.push(ResourceRecord::A {
                            name: Name::Labels(query.question.labels.clone()),
                            ttl: 15,
                            addr: ip,
                        });
                    },
                    None => {},
                },
                None => {},
            }
        },
        QueryType::AAAA => {
            match storage.get(&domain_name) {
                Some(entry) => match entry.ipv6 {
                    Some(ip) => {
                        answer.push(ResourceRecord::AAAA {
                            name: Name::Labels(query.question.labels.clone()),
                            ttl: 15,
                            addr: ip,
                        });
                    },
                    None => {},
                },
                None => {},
            }
        },
        _ => {
            if soa.mname.eq_ignore_ascii_case(&domain_name) {
                answer.push(ResourceRecord::SOA(soa.clone()));
            }
        },
    }
    let header = if answer.len() == 0 {
        response::Header { response_code: Rcode::NameError, ..header }
    } else {
        header
    };
    response::StandardQuery { header, question: query.question, answer }
}

/// Builds the reply for a request whose opcode the server does not
/// implement: the raw header echoed with the answer claimed authoritative,
/// truncation and recursion-available cleared, no answers, and the
/// not-implemented code.
pub fn unsupported_response(header: Header) -> (r: response::Response)
    ensures
        r matches response::Response::NotImplemented(n) && n.header == (Header {
            authoritative_answer: true,
            truncated: false,
            recursion_available: false,
            an_count: 0,
            response_code: ResponseCode::NotImplemented,
            ..header
        }),
{
    let header = Header {
        authoritative_answer: true,
        truncated: false,
        recursion_available: false,
        an_count: 0,
        response_code: ResponseCode::NotImplemented,
        ..header
    };
    response::Response::NotImplemented(response::NotImplemented { header })
}

} // verus!
