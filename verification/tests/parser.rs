use koppeln::dns::OpCode;
use koppeln::dns::QueryClass;
use koppeln::dns::QueryType;
use koppeln::dns::ResponseCode;
use koppeln::parser::dns_header;
use koppeln::parser::dns_label;
use koppeln::parser::dns_labels;
use koppeln::parser::dns_query;
use koppeln::parser::dns_question;
use koppeln::parser::Error;

#[test]
fn test_parse_id() {
    let raw_header = b"\x66\xf3\x01\x00\x00\x01\x00\x00\x00\x00\00\x00";

    let (_, header) = dns_header(raw_header).unwrap();

    assert_eq!(header.id, 26355);
    assert_eq!(header.opcode, OpCode::StandardQuery);
}

#[test]
fn parser_test_parse_opcode() {
    let raw_header = b"\x66\xf3\x01\x00\x00\x01\x00\x00\x00\x00\00\x00";

    let (_, header) = dns_header(raw_header).unwrap();
    assert_eq!(header.opcode, OpCode::StandardQuery);
}

#[test]
fn test_parse_tc() {
    let raw_header = b"\x66\xf3\x01\x00\x00\x01\x00\x00\x00\x00\00\x00";

    let (_, header) = dns_header(raw_header).unwrap();
    assert_eq!(header.truncated, false);
}

#[test]
fn test_parse_rd() {
    let raw_header = b"\x66\xf3\x01\x00\x00\x01\x00\x00\x00\x00\00\x00";

    let (_, header) = dns_header(raw_header).unwrap();
    assert_eq!(header.recursion_desired, true);
}

#[test]
fn test_parse_ra() {
    let raw_header = b"\x66\xf3\x01\x00\x00\x01\x00\x00\x00\x00\00\x00";

    let (_, header) = dns_header(raw_header).unwrap();
    assert_eq!(header.recursion_available, false);
}

#[test]
fn parser_test_parse_rcode() {
    let raw_header = b"\x66\xf3\x01\x00\x00\x01\x00\x00\x00\x00\00\x00";

    let (_, header) = dns_header(raw_header).unwrap();
    assert_eq!(header.response_code, ResponseCode::NoError);
}

#[test]
fn test_parse_qd_count() {
    let raw_header = b"\x66\xf3\x01\x00\x00\x01\x00\x00\x00\x00\00\x00";

    let (_, header) = dns_header(raw_header).unwrap();
    assert_eq!(header.qd_count, 1);
}

#[test]
fn test_parse_hyphen_label() {
    let raw_header = b"\x0Btest-hyphen";

    let (_, label) = dns_label(raw_header).unwrap();

    assert_eq!(label, String::from("test-hyphen"));
}

#[test]
fn test_parse_alphabetic_label() {
    let raw_header = b"\x04test";

    let (_, label) = dns_label(raw_header).unwrap();

    assert_eq!(label, String::from("test"));
}

#[test]
fn test_parse_labels() {
    let raw_labels =
        b"\x04\x74\x65\x73\x74\x03\x64\x79\x6e\x07\x65\x78\x61\x6d\x70\x6c\x65\x03\x63\x6f\x6d\x00";

    let (_, labels) = dns_labels(raw_labels).unwrap();

    assert_eq!(labels[0], String::from("test"));
    assert_eq!(labels[1], String::from("dyn"));
}

#[test]
fn test_parse_question() {
    let raw_question = b"\x04\x74\x65\x73\x74\x03\x64\x79\x6e\x07\x65\x78\x61\x6d\x70\x6c\x65\x03\x63\x6f\x6d\x00\x00\x01\x00\x01";

    let (_, question) = dns_question(raw_question).unwrap();
    assert_eq!(question.labels[0], String::from("test"));
    assert_eq!(question.query_type, QueryType::A);
    assert_eq!(question.query_class, QueryClass::IN);
}

#[test]
fn test_parse_standard_query() {
    let raw_data = b"\xf4\x4c\x01\x00\x00\x01\x00\x00\x00\x00\x00\x00\x04\x74\x65\x73\x74\x03\x64\x79\x6e\x07\x65\x78\x61\x6d\x70\x6c\x65\x03\x63\x6f\x6d\x00\x00\x01\x00\x01";

    let (n, _) = dns_header(raw_data).unwrap();
    let (_, _) = dns_question(&raw_data[n..]).unwrap();
}

#[test]
fn parse_question_reconstructs_name() {
    let raw_question = b"\x04\x74\x65\x73\x74\x03\x64\x79\x6e\x07\x65\x78\x61\x6d\x70\x6c\x65\x03\x63\x6f\x6d\x00\x00\x01\x00\x01";

    let (consumed, question) = dns_question(raw_question).unwrap();
    assert_eq!(consumed, raw_question.len());
    assert_eq!(question.name, "test.dyn.example.com");
    assert_eq!(question.labels, vec!["test", "dyn", "example", "com"]);
}

#[test]
fn parse_question_rejects_unknown_class() {
    // Class word five is not one of the four named classes.
    let raw_question = b"\x04\x74\x65\x73\x74\x00\x00\x01\x00\x05";

    assert_eq!(dns_question(raw_question).unwrap_err(), Error::Parser);
}

#[test]
fn parse_question_incomplete_when_truncated() {
    // The label announces four bytes but only two follow.
    let raw_question = b"\x04\x74\x65";

    assert_eq!(dns_question(raw_question).unwrap_err(), Error::Incomplete);
}

#[test]
fn parse_label_rejects_pointer_length_byte() {
    // A length byte with its top two bits set would be a compression pointer.
    let raw = b"\xC0\x0C";

    assert_eq!(dns_label(raw).unwrap_err(), Error::Parser);
}

#[test]
fn parse_label_rejects_leading_digit() {
    let raw = b"\x050test0";

    assert_eq!(dns_label(raw).unwrap_err(), Error::Parser);
}

#[test]
fn parse_label_rejects_double_hyphen() {
    let raw = b"\x06te--st";

    assert_eq!(dns_label(raw).unwrap_err(), Error::Parser);
}

#[test]
fn parse_query_keeps_unsupported_opcode_header() {
    // Opcode two (a status request) with id 0x1234 and the recursion bit.
    let raw = b"\x12\x34\x11\x00\x00\x01\x00\x00\x00\x00\x00\x00\xAA\xBB";

    match dns_query(raw).unwrap_err() {
        Error::NoStdQuery(header, rest) => {
            assert_eq!(header.id, 0x1234);
            assert_eq!(header.opcode, OpCode::ServerStatusRequest);
            assert!(header.recursion_desired);
            assert_eq!(rest, vec![0xAA, 0xBB]);
        }
        other => panic!("expected an unsupported-opcode result, got {:?}", other),
    }
}

#[test]
fn parse_query_incomplete_header() {
    let raw = b"\x12\x34\x01";

    assert_eq!(dns_query(raw).unwrap_err(), Error::Incomplete);
}

#[test]
fn parse_query_whole_message() {
    let raw = b"\xf4\x4c\x01\x00\x00\x01\x00\x00\x00\x00\x00\x00\x04\x74\x65\x73\x74\x03\x64\x79\x6e\x07\x65\x78\x61\x6d\x70\x6c\x65\x03\x63\x6f\x6d\x00\x00\x01\x00\x01";

    let (consumed, query) = dns_query(raw).unwrap();
    assert_eq!(consumed, raw.len());
    assert_eq!(query.header.id, 0xf44c);
    assert_eq!(query.question.name, "test.dyn.example.com");
    assert_eq!(query.question.query_type, QueryType::A);
}

#[test]
fn header_retains_only_the_listed_fields() {
    // The wire sets the authority bit and nonzero an/ns/ar counts; the
    // decoder keeps the id, flags bits it retains and the question count,
    // and reads the rest as defaults.
    let raw = b"\x00\x01\x05\x00\x00\x01\x00\x01\x00\x02\x00\x03";

    let (_, header) = dns_header(raw).unwrap();
    assert_eq!(header.id, 1);
    assert!(header.recursion_desired);
    assert!(!header.authoritative_answer);
    assert_eq!(header.qd_count, 1);
    assert_eq!(header.an_count, 0);
    assert_eq!(header.ns_count, 0);
    assert_eq!(header.ar_count, 0);
}
