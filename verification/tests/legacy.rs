use bytes::BytesMut;

use koppeln::dns::codec::Error;
use koppeln::DnsClass;
use koppeln::DnsHeader;
use koppeln::DnsMessageCodec;
use koppeln::DnsOpCode;
use koppeln::DnsQr;
use koppeln::DnsQuestion;
use koppeln::DnsResourceRecord;
use koppeln::DnsResponseCode;
use koppeln::DnsType;
use koppeln::Name;
use koppeln::QueryMessage;
use koppeln::ResponseMessage;

const QUERY: &[u8] = b"\xf4\x4c\x01\x00\x00\x01\x00\x00\x00\x00\x00\x00\x04\x74\x65\x73\x74\x03\x64\x79\x6e\x07\x65\x78\x61\x6d\x70\x6c\x65\x03\x63\x6f\x6d\x00\x00\x01\x00\x01";

#[test]
fn from_u8_reads_a_standard_query() {
    let message = QueryMessage::from_u8(QUERY);

    match message {
        QueryMessage::StandardQuery(query) => {
            assert_eq!(query.header.id, 0xf44c);
            assert_eq!(query.header.opcode, DnsOpCode::StandardQuery);
            assert!(query.header.recursion_desired);
            assert_eq!(query.header.qd_count, 1);
            assert_eq!(query.question.name, "test.dyn.example.com");
            assert_eq!(query.question.query_type, DnsType::A);
            assert_eq!(query.question.query_class, DnsClass::IN);
        }
        other => panic!("expected a standard query, got {:?}", other),
    }
}

#[test]
fn from_u8_maps_other_opcodes() {
    // Same header with the opcode bits changed; no question follows.
    let inverse = b"\xf4\x4c\x09\x00\x00\x01\x00\x00\x00\x00\x00\x00";
    let status = b"\xf4\x4c\x11\x00\x00\x01\x00\x00\x00\x00\x00\x00";
    let reserved = b"\xf4\x4c\x39\x00\x00\x01\x00\x00\x00\x00\x00\x00";

    assert_eq!(QueryMessage::from_u8(inverse), QueryMessage::InverseQuery);
    assert_eq!(QueryMessage::from_u8(status), QueryMessage::Status);
    assert_eq!(QueryMessage::from_u8(reserved), QueryMessage::Reserved(7));
}

#[test]
fn with_pointer_encodes_offset_with_top_bits() {
    let name = Name::with_pointer(11);

    assert_eq!(name.as_u8(), vec![0xC0, 11]);
}

#[test]
fn codec_decodes_and_consumes_a_query() {
    let mut codec = DnsMessageCodec::new();
    let mut buf = BytesMut::new();
    buf.extend_from_slice(QUERY);

    let decoded = codec.decode(&mut buf).unwrap().unwrap();
    match decoded {
        QueryMessage::StandardQuery(query) => {
            assert_eq!(query.question.name, "test.dyn.example.com");
        }
        other => panic!("expected a standard query, got {:?}", other),
    }
    assert_eq!(buf.len(), 0);

    assert_eq!(codec.decode(&mut buf).unwrap(), None);
}

#[test]
fn codec_waits_for_short_datagrams() {
    let mut codec = DnsMessageCodec::new();
    let mut buf = BytesMut::new();
    buf.extend_from_slice(&QUERY[..5]);

    assert_eq!(codec.decode(&mut buf), Ok(None));
    assert_eq!(buf.len(), 5);

    buf.extend_from_slice(&QUERY[5..]);
    assert!(matches!(
        codec.decode(&mut buf),
        Ok(Some(QueryMessage::StandardQuery(_)))
    ));
    assert_eq!(buf.len(), 0);
}

#[test]
fn codec_clears_buffer_on_malformed_question() {
    let mut codec = DnsMessageCodec::new();
    let mut buf = BytesMut::new();
    // A standard-query header, then a question whose class word is nine.
    buf.extend_from_slice(
        b"\x00\x07\x00\x00\x00\x01\x00\x00\x00\x00\x00\x00\x04\x74\x65\x73\x74\x00\x00\x01\x00\x09",
    );

    assert_eq!(codec.decode(&mut buf), Err(Error::Decoding));
    assert_eq!(buf.len(), 0);
}

#[test]
fn response_message_encodes_header_question_and_record() {
    let mut codec = DnsMessageCodec::new();
    let header = DnsHeader {
        id: 0x0102,
        opcode: DnsOpCode::StandardQuery,
        truncated: false,
        authoritative_answer: true,
        recursion_desired: false,
        recursion_available: false,
        response_code: DnsResponseCode::NoError,
        qd_count: 1,
        an_count: 1,
        ns_count: 0,
        ar_count: 0,
    };
    let question = DnsQuestion {
        labels: vec!["test".to_string()],
        name: "test".to_string(),
        query_type: DnsType::A,
        query_class: DnsClass::IN,
    };
    let record = DnsResourceRecord {
        name: Name::with_pointer(12),
        data_type: DnsType::A,
        data_class: DnsClass::IN,
        ttl: 15,
        resource_data_length: 4,
        resource_data: koppeln::dns::Ipv4Addr { octets: [10, 0, 0, 7] },
    };
    let message = ResponseMessage { header, question, answer: vec![record] };

    let mut buf = BytesMut::new();
    codec.encode(message, &mut buf);

    // Header, question (4 + 4 + 2 bytes of name, type, class), then the
    // record: pointer, type, class, ttl, rdlength, four address octets.
    assert_eq!(buf.len(), 12 + 10 + 16);
    assert_eq!(&buf[0..2], &[0x01, 0x02]);
    assert_eq!(buf[2], 0x84);
    let record_bytes = &buf[22..];
    assert_eq!(&record_bytes[0..2], &[0xC0, 12]);
    assert_eq!(&record_bytes[2..4], &[0, 1]);
    assert_eq!(&record_bytes[4..6], &[0, 1]);
    assert_eq!(&record_bytes[6..10], &[0, 0, 0, 15]);
    assert_eq!(&record_bytes[10..12], &[0, 4]);
    assert_eq!(&record_bytes[12..16], &[10, 0, 0, 7]);
}

#[test]
fn qr_and_codes_round_trip_on_the_simple_surface() {
    assert_eq!(DnsQr::from_u16(1).as_u16(), 1);
    assert_eq!(DnsQr::from_u16(0).as_u16(), 0);
    assert_eq!(DnsOpCode::from_u8(2), DnsOpCode::ServerStatusRequest);
    assert_eq!(DnsOpCode::from_u8(9).as_u8(), 9);
    assert_eq!(DnsResponseCode::from_u8(3), DnsResponseCode::NameError);
    assert_eq!(DnsResponseCode::from_u8(9), DnsResponseCode::Refused);
    assert_eq!(DnsType::from_u16(28), Some(DnsType::AAAA));
    assert_eq!(DnsType::from_u16(3), Some(DnsType::MX));
    assert_eq!(DnsType::from_u16(99), None);
    assert_eq!(DnsClass::from_u16(4), Some(DnsClass::HS));
    assert_eq!(DnsClass::from_u16(9), None);
}
