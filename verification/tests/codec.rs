use bytes::BytesMut;

use koppeln::dns::codec::Codec;
use koppeln::dns::codec::Error;
use koppeln::dns::codec::Message;
use koppeln::dns::Header;
use koppeln::dns::OpCode;
use koppeln::dns::Question;
use koppeln::dns::QueryClass;
use koppeln::dns::QueryType;
use koppeln::dns::ResponseCode;
use koppeln::dns::StandardQuery;

fn base_header() -> Header {
    Header {
        id: 1234,
        opcode: OpCode::StandardQuery,
        truncated: false,
        authoritative_answer: false,
        recursion_desired: false,
        recursion_available: false,
        response_code: ResponseCode::NoError,
        qd_count: 1,
        an_count: 0,
        ns_count: 0,
        ar_count: 0,
    }
}

#[test]
fn slow_sender() {
    let mut codec = Codec::default();
    let mut buf = BytesMut::new();

    let header = base_header();

    let header_raw: Vec<u8> = header.as_u8();
    buf.extend_from_slice(&header_raw[0..11]);

    let result = codec.decode(&mut buf);
    assert_eq!(None, result.unwrap());
}

#[test]
fn slow_sender_sends_rest_of_data() {
    let mut codec = Codec::default();
    let mut buf = BytesMut::new();

    let header = base_header();

    let question = Question {
        labels: ["example", "test", "com"]
            .iter()
            .map(|n| n.to_string())
            .collect::<Vec<_>>(),
        name: "example.test.com".to_string(),
        query_type: QueryType::A,
        query_class: QueryClass::IN,
    };

    let query = StandardQuery { header, question };

    let header_raw: Vec<u8> = query.as_u8();

    buf.extend_from_slice(&header_raw[0..11]);
    let result = codec.decode(&mut buf);
    assert_eq!(None, result.unwrap());

    buf.extend_from_slice(&header_raw[11..]);
    let result = codec.decode(&mut buf);
    assert_eq!(Some(Message::Query(query)), result.unwrap());
}

#[test]
fn slow_sender_sends_rest_of_data_incomlete() {
    let mut codec = Codec::default();
    let mut buf = BytesMut::new();

    let header = base_header();

    let question = Question {
        labels: ["example", "test", "com"]
            .iter()
            .map(|n| n.to_string())
            .collect::<Vec<_>>(),
        name: "example.test.com".to_string(),
        query_type: QueryType::A,
        query_class: QueryClass::IN,
    };

    let query = StandardQuery { header, question };

    let mut header_raw: Vec<u8> = query.as_u8();
    header_raw.append(&mut header_raw[0..11].to_vec());

    buf.extend_from_slice(&header_raw[0..11]);
    let result = codec.decode(&mut buf);
    assert_eq!(None, result.unwrap());

    buf.extend_from_slice(&header_raw[11..21]);
    let result = codec.decode(&mut buf);
    assert_eq!(None, result.unwrap());

    buf.extend_from_slice(&header_raw[21..]);
    let result = codec.decode(&mut buf);
    assert_eq!(Some(Message::Query(query)), result.unwrap());
}

#[test]
fn decode_empties_buffer_after_message() {
    let mut codec = Codec::default();
    let mut buf = BytesMut::new();

    let query = StandardQuery {
        header: base_header(),
        question: Question {
            labels: vec!["test".to_string()],
            name: "test".to_string(),
            query_type: QueryType::A,
            query_class: QueryClass::IN,
        },
    };
    buf.extend_from_slice(&query.as_u8());
    // Trailing bytes of the datagram are discarded with the message.
    buf.extend_from_slice(&[0xAA, 0xBB, 0xCC]);

    let result = codec.decode(&mut buf).unwrap();
    assert_eq!(Some(Message::Query(query)), result);
    assert_eq!(buf.len(), 0);

    // And the next decode has nothing to decide on.
    assert_eq!(None, codec.decode(&mut buf).unwrap());
}

#[test]
fn decode_clears_buffer_on_malformed_datagram() {
    let mut codec = Codec::default();
    let mut buf = BytesMut::new();

    // A standard-query header followed by a question with class word nine.
    buf.extend_from_slice(
        b"\x00\x07\x00\x00\x00\x01\x00\x00\x00\x00\x00\x00\x04\x74\x65\x73\x74\x00\x00\x01\x00\x09",
    );

    let result = codec.decode(&mut buf);
    assert_eq!(Err(Error::Decoding), result);
    assert_eq!(buf.len(), 0);
}

#[test]
fn decode_unsupported_opcode_keeps_header() {
    let mut codec = Codec::default();
    let mut buf = BytesMut::new();

    // Opcode two, id 77, recursion desired; two trailing bytes.
    buf.extend_from_slice(b"\x00\x4D\x11\x00\x00\x01\x00\x00\x00\x00\x00\x00\x01\x02");

    match codec.decode(&mut buf).unwrap() {
        Some(Message::Unsupported(header, rest)) => {
            assert_eq!(header.id, 77);
            assert_eq!(header.opcode, OpCode::ServerStatusRequest);
            assert!(header.recursion_desired);
            assert_eq!(rest, vec![0x01, 0x02]);
        }
        other => panic!("expected an unsupported message, got {:?}", other),
    }
    assert_eq!(buf.len(), 0);
}

#[test]
fn encode_appends_response_bytes() {
    let mut codec = Codec::default();
    let mut buf = BytesMut::new();

    let response = koppeln::dns::response::Response::NotImplemented(
        koppeln::dns::response::NotImplemented {
            header: Header {
                id: 9,
                response_code: ResponseCode::NotImplemented,
                authoritative_answer: true,
                ..base_header()
            },
        },
    );
    codec.encode(response, &mut buf);

    assert_eq!(buf.len(), 12);
    // id, then flags: response bit and authority on the first flags byte,
    // the not-implemented code on the second.
    assert_eq!(&buf[..], &[0, 9, 0x84, 0x04, 0, 1, 0, 0, 0, 0, 0, 0]);
}
