use koppeln::dns::codec::Codec;
use koppeln::dns::codec::Message;
use koppeln::dns::response::Rcode;
use koppeln::dns::response::Response;
use koppeln::dns::server::handle_standard_query;
use koppeln::dns::server::unsupported_response;
use koppeln::dns::DomainName;
use koppeln::dns::Header;
use koppeln::dns::IpAddress;
use koppeln::dns::Ipv4Addr;
use koppeln::dns::Ipv6Addr;
use koppeln::dns::OpCode;
use koppeln::dns::Qr;
use koppeln::dns::Question;
use koppeln::dns::QueryClass;
use koppeln::dns::QueryType;
use koppeln::dns::ResourceRecord;
use koppeln::dns::ResponseCode;
use koppeln::dns::StandardQuery;
use koppeln::dns::StartOfAuthority;
use koppeln::storage::Storage;
use koppeln::storage::SubDomainEntry;
use koppeln::web::update_address_handler;
use koppeln::web::update_address_request;
use koppeln::web::UpdateInfo;
use koppeln::web::UpdateStatus;

fn test_soa() -> StartOfAuthority {
    StartOfAuthority {
        mname: DomainName::from("dyn.example.com"),
        rname: DomainName::from("postmaster.example.com"),
        serial: 123,
        refresh: 100,
        retry: 200,
        expire: 300,
        minimum: 400,
    }
}

fn test_storage() -> Storage {
    Storage::new(
        DomainName::from("dyn.example.com"),
        vec![(
            DomainName::from("test"),
            SubDomainEntry {
                ipv4: None,
                ipv6: None,
                token: "super_secure".to_string(),
            },
        )],
    )
}

fn a_query(name: &str, query_type: QueryType) -> StandardQuery {
    StandardQuery {
        header: Header {
            id: 1234,
            opcode: OpCode::StandardQuery,
            truncated: false,
            authoritative_answer: false,
            recursion_desired: false,
            recursion_available: false,
            response_code: ResponseCode::NoError,
            qd_count: 1,
            an_count: 0,
            ns_count: 0,
            ar_count: 0,
        },
        question: Question {
            labels: name.split('.').map(|s| s.to_string()).collect(),
            name: name.to_string(),
            query_type,
            query_class: QueryClass::IN,
        },
    }
}

#[test]
fn dns_server_it_handles_soa_request() {
    let mname = DomainName::from("dyn.example.com");
    let sub_domains = Vec::new();

    let soa = StartOfAuthority {
        mname: mname.clone(),
        rname: DomainName::from("postmaster.example.com"),
        serial: 123,
        refresh: 100,
        retry: 200,
        expire: 300,
        minimum: 400,
    };
    let storage = Storage::new(mname, sub_domains);
    let query = a_query("dyn.example.com", QueryType::SOA);

    let msg = handle_standard_query(&soa, &storage, query);

    assert!(msg.header.authoritative_answer);
    assert_eq!(msg.header.response_code, Rcode::NoError);
    assert_eq!(msg.answer.len(), 1, "to contain one answer record");
}

#[test]
fn server_it_handles_soa_request() {
    let soa = test_soa();
    let storage = Storage::new(DomainName::from("dyn.example.com"), Vec::new());
    let query = a_query("dyn.example.com", QueryType::SOA);

    let msg = handle_standard_query(&soa, &storage, query);

    assert!(msg.header.authoritative_answer);
    assert_eq!(msg.header.response_code, Rcode::NoError);
}

#[test]
fn query_unknown_domain_is_name_error() {
    let soa = test_soa();
    let storage = test_storage();

    let response =
        handle_standard_query(&soa, &storage, a_query("unknown.dyn.example.com", QueryType::A));

    assert_eq!(response.header.response_code, Rcode::NameError);
    assert_eq!(response.answer.len(), 0);
    assert!(response.header.authoritative_answer);
}

#[test]
fn query_domain_without_ip_is_name_error() {
    let soa = test_soa();
    let storage = test_storage();

    let response =
        handle_standard_query(&soa, &storage, a_query("test.dyn.example.com", QueryType::A));

    assert_eq!(response.header.response_code, Rcode::NameError);
    assert_eq!(response.answer.len(), 0);
}

#[test]
fn update_then_query_returns_new_address() {
    let soa = test_soa();
    let mut storage = test_storage();

    let status = update_address_handler(
        &"super_secure".to_string(),
        &UpdateInfo {
            hostname: "test.dyn.example.com".to_string(),
            ip: IpAddress::V4(Ipv4Addr { octets: [1, 2, 3, 4] }),
        },
        &mut storage,
    );
    assert_eq!(status, UpdateStatus::NoContent);

    let response =
        handle_standard_query(&soa, &storage, a_query("test.dyn.example.com", QueryType::A));

    assert_eq!(response.header.response_code, Rcode::NoError);
    assert_eq!(response.answer.len(), 1);
    match &response.answer[0] {
        ResourceRecord::A { ttl, addr, .. } => {
            assert_eq!(*ttl, 15);
            assert_eq!(addr.octets, [1, 2, 3, 4]);
        }
        other => panic!("expected an A record, got {:?}", other),
    }
}

#[test]
fn update_then_query_returns_new_ipv6_address() {
    let soa = test_soa();
    let mut storage = test_storage();

    let octets: [u8; 16] = [0x20, 0x01, 0x0d, 0xb8, 0, 0, 0, 0, 0, 0, 0, 0, 0, 0, 0, 1];
    let status = update_address_handler(
        &"super_secure".to_string(),
        &UpdateInfo {
            hostname: "test.dyn.example.com".to_string(),
            ip: IpAddress::V6(Ipv6Addr { octets }),
        },
        &mut storage,
    );
    assert_eq!(status, UpdateStatus::NoContent);

    let response =
        handle_standard_query(&soa, &storage, a_query("test.dyn.example.com", QueryType::AAAA));

    assert_eq!(response.header.response_code, Rcode::NoError);
    assert_eq!(response.answer.len(), 1);
    match &response.answer[0] {
        ResourceRecord::AAAA { ttl, addr, .. } => {
            assert_eq!(*ttl, 15);
            assert_eq!(addr.octets, octets);
        }
        other => panic!("expected an AAAA record, got {:?}", other),
    }
}

#[test]
fn update_with_wrong_token_is_forbidden_and_store_unchanged() {
    let soa = test_soa();
    let mut storage = test_storage();

    let status = update_address_handler(
        &"wrong".to_string(),
        &UpdateInfo {
            hostname: "test.dyn.example.com".to_string(),
            ip: IpAddress::V4(Ipv4Addr { octets: [1, 2, 3, 4] }),
        },
        &mut storage,
    );
    assert_eq!(status, UpdateStatus::Forbidden);

    let response =
        handle_standard_query(&soa, &storage, a_query("test.dyn.example.com", QueryType::A));
    assert_eq!(response.header.response_code, Rcode::NameError);
    assert_eq!(response.answer.len(), 0);
}

#[test]
fn update_of_unregistered_name_is_unprocessable() {
    let mut storage = test_storage();

    let status = update_address_handler(
        &"super_secure".to_string(),
        &UpdateInfo {
            hostname: "new.dyn.example.com".to_string(),
            ip: IpAddress::V4(Ipv4Addr { octets: [1, 2, 3, 4] }),
        },
        &mut storage,
    );
    assert_eq!(status, UpdateStatus::UnprocessableEntity);
}

#[test]
fn update_preserves_token() {
    let mut storage = test_storage();

    let status = update_address_handler(
        &"super_secure".to_string(),
        &UpdateInfo {
            hostname: "test.dyn.example.com".to_string(),
            ip: IpAddress::V4(Ipv4Addr { octets: [9, 9, 9, 9] }),
        },
        &mut storage,
    );
    assert_eq!(status, UpdateStatus::NoContent);

    let entry = storage.get(&DomainName::from("test.dyn.example.com")).unwrap();
    assert_eq!(entry.token, "super_secure");
    assert_eq!(entry.ipv4, Some(Ipv4Addr { octets: [9, 9, 9, 9] }));
}

#[test]
fn status_request_gets_not_implemented_response() {
    let mut codec = Codec::default();
    let mut buf = bytes::BytesMut::new();
    // Opcode two (a status request), id 0x2222, recursion desired.
    buf.extend_from_slice(b"\x22\x22\x11\x00\x00\x01\x00\x00\x00\x00\x00\x00");

    let header = match codec.decode(&mut buf).unwrap() {
        Some(Message::Unsupported(header, _)) => header,
        other => panic!("expected an unsupported message, got {:?}", other),
    };
    let response = unsupported_response(header);
    match response {
        Response::NotImplemented(n) => {
            assert_eq!(n.header.id, 0x2222);
            assert!(n.header.recursion_desired);
            assert_eq!(n.header.response_code, ResponseCode::NotImplemented);
            assert_eq!(n.header.an_count, 0);
            assert!(n.header.authoritative_answer);
        }
        other => panic!("expected a not-implemented response, got {:?}", other),
    }
}

#[test]
fn soa_query_returns_configured_record() {
    let soa = test_soa();
    let storage = test_storage();

    let response =
        handle_standard_query(&soa, &storage, a_query("dyn.example.com", QueryType::SOA));
    assert_eq!(response.header.response_code, Rcode::NoError);
    assert_eq!(response.answer.len(), 1);
    match &response.answer[0] {
        ResourceRecord::SOA(record) => {
            assert_eq!(record.mname, DomainName::from("dyn.example.com"));
            assert_eq!(record.rname, DomainName::from("postmaster.example.com"));
            assert_eq!(record.serial, 123);
            assert_eq!(record.refresh, 100);
            assert_eq!(record.retry, 200);
            assert_eq!(record.expire, 300);
            assert_eq!(record.minimum, 400);
        }
        other => panic!("expected an SOA record, got {:?}", other),
    }

    let below =
        handle_standard_query(&soa, &storage, a_query("test.dyn.example.com", QueryType::SOA));
    assert_eq!(below.header.response_code, Rcode::NameError);
    assert_eq!(below.answer.len(), 0);
}

#[test]
fn more_than_one_question_is_a_format_error() {
    let soa = test_soa();
    let storage = test_storage();

    let mut query = a_query("test.dyn.example.com", QueryType::A);
    query.header.qd_count = 2;
    let response = handle_standard_query(&soa, &storage, query);

    assert_eq!(response.header.response_code, Rcode::FormatError);
    assert_eq!(response.header.qd_count, 2);
    assert_eq!(response.answer.len(), 0);
}

#[test]
fn unserviced_query_type_is_answered_empty_without_error() {
    let soa = test_soa();
    let storage = test_storage();

    let response =
        handle_standard_query(&soa, &storage, a_query("test.dyn.example.com", QueryType::MX));

    assert_eq!(response.header.response_code, Rcode::NoError);
    assert_eq!(response.answer.len(), 0);
}

#[test]
fn out_of_zone_name_never_resolves() {
    let storage = test_storage();

    assert!(storage.get(&DomainName::from("test.dyn.example.org")).is_none());
    assert!(storage.get(&DomainName::from("example.com")).is_none());
    // The origin itself is not strictly under the origin.
    assert!(storage.get(&DomainName::from("dyn.example.com")).is_none());
    // Nor is a name that only textually ends in it.
    assert!(storage.get(&DomainName::from("xdyn.example.com")).is_none());
}

#[test]
fn strip_suffix_takes_the_key_off_the_front() {
    let name = DomainName::from("test.dyn.example.com");
    let origin = DomainName::from("dyn.example.com");

    assert_eq!(name.strip_suffix(&origin), Some(DomainName::from("test")));
    assert_eq!(origin.strip_suffix(&origin), None);
    assert_eq!(DomainName::from("xdyn.example.com").strip_suffix(&origin), None);
    assert_eq!(
        DomainName::from("a.b.dyn.example.com").strip_suffix(&origin),
        Some(DomainName::from("a.b"))
    );
}

#[test]
fn get_mut_changes_addresses_in_place() {
    let mut storage = test_storage();
    let name = DomainName::from("test.dyn.example.com");

    {
        let entry = storage.get_mut(&name).unwrap();
        entry.ipv4 = Some(Ipv4Addr { octets: [10, 0, 0, 1] });
    }
    assert_eq!(
        storage.get(&name).unwrap().ipv4,
        Some(Ipv4Addr { octets: [10, 0, 0, 1] })
    );
    assert!(storage.get_mut(&DomainName::from("other.dyn.example.com")).is_none());
}

#[test]
fn oversized_response_is_truncated_to_header_and_question() {
    let query = a_query("test.dyn.example.com", QueryType::A);
    let question_len = query.question.as_u8().len();

    let record = ResourceRecord::A {
        name: koppeln::dns::Name::Labels(query.question.labels.clone()),
        ttl: 15,
        addr: Ipv4Addr { octets: [1, 2, 3, 4] },
    };
    let mut answer = Vec::new();
    for _ in 0..20 {
        answer.push(record.clone());
    }
    let response = koppeln::dns::response::StandardQuery {
        header: koppeln::dns::response::Header {
            id: 7,
            truncated: false,
            authoritative_answer: true,
            recursion_desired: false,
            recursion_available: false,
            response_code: Rcode::NoError,
            qd_count: 1,
        },
        question: query.question,
        answer,
    };
    let bytes = response.as_u8();

    assert_eq!(bytes.len(), 12 + question_len);
    // The truncation bit is set and no answers are counted.
    assert_eq!(bytes[2] & 0x02, 0x02);
    assert_eq!(&bytes[6..8], &[0, 0]);
}

#[test]
fn response_header_bytes_are_exact() {
    let response = koppeln::dns::response::StandardQuery {
        header: koppeln::dns::response::Header {
            id: 0x1234,
            truncated: false,
            authoritative_answer: true,
            recursion_desired: true,
            recursion_available: false,
            response_code: Rcode::NameError,
            qd_count: 1,
        },
        question: Question {
            labels: vec!["test".to_string()],
            name: "test".to_string(),
            query_type: QueryType::A,
            query_class: QueryClass::IN,
        },
        answer: Vec::new(),
    };
    let bytes = response.as_u8();

    // id; qr|aa|rd flags; rcode; qd=1; an=ns=ar=0; then the question.
    assert_eq!(
        &bytes[..12],
        &[0x12, 0x34, 0x85, 0x03, 0, 1, 0, 0, 0, 0, 0, 0]
    );
    assert_eq!(
        &bytes[12..],
        &[4, b't', b'e', b's', b't', 0, 0, 1, 0, 1]
    );
}

#[test]
fn well_formed_datagram_survives_the_round_trip() {
    let query = a_query("test.dyn.example.com", QueryType::A);
    let bytes = query.as_u8();

    let (consumed, reparsed) = koppeln::parser::dns_query(&bytes).unwrap();
    assert_eq!(consumed, bytes.len());
    assert_eq!(reparsed, query);
    assert_eq!(reparsed.as_u8(), bytes);
}

#[test]
fn decoded_response_header_echoes_the_request() {
    let soa = test_soa();
    let storage = test_storage();
    let mut query = a_query("test.dyn.example.com", QueryType::A);
    query.header.id = 4711;
    query.header.recursion_desired = true;

    let response = handle_standard_query(&soa, &storage, query);
    let bytes = response.as_u8();

    let (_, header) = koppeln::parser::dns_header(&bytes).unwrap();
    assert_eq!(header.id, 4711);
    assert!(!header.truncated);
    assert!(header.recursion_desired);
    assert!(!header.recursion_available);
    // The query/response and authority bits of the first flags byte are set
    // on the wire; the decoder itself does not retain the authority bit.
    assert_eq!(bytes[2] & 0x80, 0x80);
    assert_eq!(bytes[2] & 0x04, 0x04);
    assert!(!header.authoritative_answer);
}

#[test]
fn qr_values_round_trip() {
    assert_eq!(Qr::from_u16(1).as_u16(), 1);
    assert_eq!(Qr::from_u16(0).as_u16(), 0);
    assert_eq!(Qr::from_u16(7).as_u16(), 0);
}

#[test]
fn lookup_matches_names_case_insensitively() {
    let soa = test_soa();
    let mut storage = test_storage();

    let status = update_address_handler(
        &"super_secure".to_string(),
        &UpdateInfo {
            hostname: "Test.DYN.Example.Com".to_string(),
            ip: IpAddress::V4(Ipv4Addr { octets: [5, 6, 7, 8] }),
        },
        &mut storage,
    );
    assert_eq!(status, UpdateStatus::NoContent);

    let response =
        handle_standard_query(&soa, &storage, a_query("TEST.dyn.example.COM", QueryType::A));
    assert_eq!(response.header.response_code, Rcode::NoError);
    assert_eq!(response.answer.len(), 1);
    match &response.answer[0] {
        ResourceRecord::A { addr, .. } => assert_eq!(addr.octets, [5, 6, 7, 8]),
        other => panic!("expected an A record, got {:?}", other),
    }
}

#[test]
fn soa_query_matches_origin_case_insensitively() {
    let soa = test_soa();
    let storage = test_storage();

    let response =
        handle_standard_query(&soa, &storage, a_query("DYN.EXAMPLE.COM", QueryType::SOA));
    assert_eq!(response.header.response_code, Rcode::NoError);
    assert_eq!(response.answer.len(), 1);
}

#[test]
fn strip_suffix_ignores_ascii_case_of_the_suffix() {
    let name = DomainName::from("test.DYN.example.COM");
    let origin = DomainName::from("dyn.example.com");

    assert_eq!(name.strip_suffix(&origin), Some(DomainName::from("test")));
    assert!(DomainName::from("dyn.example.com")
        .eq_ignore_ascii_case(&DomainName::from("DYN.Example.com")));
    assert!(!DomainName::from("dyn.example.com")
        .eq_ignore_ascii_case(&DomainName::from("dyn.example.org")));
}

#[test]
fn request_without_token_is_unauthorized() {
    let mut storage = test_storage();

    let info = UpdateInfo {
        hostname: "test.dyn.example.com".to_string(),
        ip: IpAddress::V4(Ipv4Addr { octets: [1, 2, 3, 4] }),
    };
    let status = update_address_request(None, &info, &mut storage);
    assert_eq!(status, UpdateStatus::Unauthorized);
    assert!(storage.get(&DomainName::from("test.dyn.example.com")).unwrap().ipv4.is_none());

    let token = "super_secure".to_string();
    let status = update_address_request(Some(&token), &info, &mut storage);
    assert_eq!(status, UpdateStatus::NoContent);
}
