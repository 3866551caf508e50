use rustlib::errors::DnsError;
use rustlib::header::{Header2, OpCodeEnum, RCodeEnum};
use rustlib::message::{u16_be_from_slice, DnsHeader, DnsQuestion, DnsQuery};
use rustlib::name::{decode_host_bytes, encode_host_bytes};
use rustlib::resolver::DnsResolver;
use rustlib::response::DnsResponse;

fn flags(qr: bool, op: OpCodeEnum, aa: bool, tc: bool, rd: bool, ra: bool, rc: RCodeEnum) -> Header2 {
    Header2 { qr, op_code: op, aa, tc, rd, ra, r_code: rc }
}

#[test]
fn pack_standard_query_flags() {
    let h = flags(false, OpCodeEnum::Query, false, false, true, false, RCodeEnum::NoErr);
    assert_eq!(h.to_int(), 0x0100);
}

#[test]
fn pack_response_flags() {
    let h = flags(true, OpCodeEnum::Query, false, false, true, true, RCodeEnum::NoErr);
    assert_eq!(h.to_int(), 0x8180);
}

#[test]
fn unpack_pack_round_trip() {
    let cases = [
        flags(false, OpCodeEnum::Query, false, false, true, false, RCodeEnum::NoErr),
        flags(true, OpCodeEnum::IQuery, true, false, false, true, RCodeEnum::NameErr),
        flags(true, OpCodeEnum::Status, false, true, true, true, RCodeEnum::RefusedErr),
        flags(false, OpCodeEnum::Unknown(9), true, true, false, false, RCodeEnum::Unknown(12)),
    ];
    for h in cases {
        assert_eq!(Header2::from_int(h.to_int()), h);
    }
}

#[test]
fn unpack_keeps_unknown_codes() {
    // Opcode 7 and response code 11 name no variant: both come back as
    // themselves instead of being clamped.
    let h = Header2::from_int((7 << 11) | 11);
    assert_eq!(h.op_code, OpCodeEnum::Unknown(7));
    assert_eq!(h.r_code, RCodeEnum::Unknown(11));
    assert_eq!(h.op_code.to_int(), 7);
    assert_eq!(h.r_code.to_int(), 11);
}

#[test]
fn opcode_from_int_known_values() {
    assert_eq!(OpCodeEnum::from_int(0), OpCodeEnum::Query);
    assert_eq!(OpCodeEnum::from_int(1), OpCodeEnum::IQuery);
    assert_eq!(OpCodeEnum::from_int(2), OpCodeEnum::Status);
    assert_eq!(OpCodeEnum::from_int(5), OpCodeEnum::Unknown(5));
}

#[test]
fn rcode_from_int_known_values() {
    assert_eq!(RCodeEnum::from_int(0), RCodeEnum::NoErr);
    assert_eq!(RCodeEnum::from_int(1), RCodeEnum::FormatErr);
    assert_eq!(RCodeEnum::from_int(2), RCodeEnum::ServerErr);
    assert_eq!(RCodeEnum::from_int(3), RCodeEnum::NameErr);
    assert_eq!(RCodeEnum::from_int(4), RCodeEnum::NotImplErr);
    assert_eq!(RCodeEnum::from_int(5), RCodeEnum::RefusedErr);
    assert_eq!(RCodeEnum::from_int(6), RCodeEnum::Unknown(6));
}

#[test]
fn encode_three_labels() {
    let wire = DnsQuery::change_dns_name("a.b.c").unwrap();
    assert_eq!(wire, vec![1, b'a', 1, b'b', 1, b'c', 0]);
}

#[test]
fn encode_example_com() {
    let wire = DnsQuery::change_dns_name("example.com").unwrap();
    let mut expected = vec![7u8];
    expected.extend_from_slice(b"example");
    expected.push(3);
    expected.extend_from_slice(b"com");
    expected.push(0);
    assert_eq!(wire, expected);
}

#[test]
fn encode_empty_name_is_just_terminator() {
    assert_eq!(DnsQuery::change_dns_name("").unwrap(), vec![0]);
}

#[test]
fn encode_skips_empty_labels() {
    assert_eq!(
        DnsQuery::change_dns_name("a..b.").unwrap(),
        vec![1, b'a', 1, b'b', 0]
    );
}

#[test]
fn encode_refuses_oversized_label() {
    let long = "x".repeat(256);
    assert_eq!(
        DnsQuery::change_dns_name(&long),
        Err(DnsError::EncodingError)
    );
    // 255 bytes still fit in one length byte.
    let edge = "x".repeat(255);
    let wire = DnsQuery::change_dns_name(&edge).unwrap();
    assert_eq!(wire.len(), 1 + 255 + 1);
    assert_eq!(wire[0], 255);
}

#[test]
fn decode_undoes_encode() {
    for host in ["example.com", "a.b.c", "www.wikipedia.org", "localhost"] {
        let wire = DnsQuery::change_dns_name(host).unwrap();
        let back = decode_host_bytes(&wire).unwrap();
        assert_eq!(back, host.as_bytes().to_vec());
    }
}

#[test]
fn decode_refuses_unterminated_name() {
    // A length byte that points past the end, and a name with no terminator.
    assert_eq!(
        decode_host_bytes(&[5, b'a', b'b']),
        Err(DnsError::TruncatedMessage)
    );
    assert_eq!(
        decode_host_bytes(&[1, b'a']),
        Err(DnsError::TruncatedMessage)
    );
    assert_eq!(decode_host_bytes(&[]), Err(DnsError::TruncatedMessage));
}

#[test]
fn encode_host_bytes_matches_change_dns_name() {
    let bytes = b"news.ycombinator.com".to_vec();
    assert_eq!(
        encode_host_bytes(&bytes).unwrap(),
        DnsQuery::change_dns_name("news.ycombinator.com").unwrap()
    );
}

#[test]
fn build_query_length_formula() {
    for host in ["example.com", "a.b.c", "", "a.very.long.host.name.test"] {
        let packet = DnsQuery::build_query(1337, host, 1, 1).unwrap();
        let name_len = DnsQuery::change_dns_name(host).unwrap().len();
        assert_eq!(packet.len(), 12 + name_len + 4);
    }
}

#[test]
fn build_query_layout() {
    let packet = DnsQuery::build_query(0x0539, "a.b.c", 1, 1).unwrap();
    // Header: id, flags 0x0100, one question, no other records.
    assert_eq!(
        &packet[0..12],
        &[0x05, 0x39, 0x01, 0x00, 0, 1, 0, 0, 0, 0, 0, 0]
    );
    // Name, then qtype and qclass.
    assert_eq!(&packet[12..19], &[1, b'a', 1, b'b', 1, b'c', 0]);
    assert_eq!(&packet[19..23], &[0, 1, 0, 1]);
}

#[test]
fn query_as_bytes_serializes_header_fields() {
    let query = DnsQuery {
        header: DnsHeader::new(0xABCD, 0x0100, 1, 0, 0, 0),
        question: DnsQuestion::new(1, 1),
        name: String::from("a"),
    };
    let packet = query.as_bytes().unwrap();
    assert_eq!(&packet[0..4], &[0xAB, 0xCD, 0x01, 0x00]);
    assert_eq!(&packet[12..15], &[1, b'a', 0]);
    assert_eq!(packet.len(), 12 + 3 + 4);
}

#[test]
fn u16_be_from_slice_reads_big_endian() {
    assert_eq!(u16_be_from_slice(&[0x01, 0x2C]), Ok(300));
    assert_eq!(u16_be_from_slice(&[0, 0]), Ok(0));
    assert_eq!(u16_be_from_slice(&[0xFF, 0xFF]), Ok(65535));
}

#[test]
fn u16_be_from_slice_refuses_other_lengths() {
    assert_eq!(u16_be_from_slice(&[]), Err(DnsError::ParseError));
    assert_eq!(u16_be_from_slice(&[1]), Err(DnsError::ParseError));
    assert_eq!(u16_be_from_slice(&[1, 2, 3]), Err(DnsError::ParseError));
}

/// The error a parse is expected to end in.
fn parse_err(buf: &[u8], len: usize) -> DnsError {
    match DnsResponse::from_bytes(buf, len) {
        Err(e) => e,
        Ok(_) => panic!("expected a parse error"),
    }
}

/// A well-formed response for "example.com": id 1337, one question, one
/// A/IN answer with ttl 300 and address 93.184.216.34.
fn synthetic_response() -> Vec<u8> {
    let mut buf = vec![
        0x05, 0x39, // id 1337
        0x81, 0x80, // flags: response, recursion desired and available
        0x00, 0x01, // one question
        0x00, 0x01, // one answer
        0x00, 0x00, // no authority records
        0x00, 0x00, // no additional records
    ];
    buf.push(7);
    buf.extend_from_slice(b"example");
    buf.push(3);
    buf.extend_from_slice(b"com");
    buf.push(0); // terminator at offset 24
    buf.extend_from_slice(&[0, 1, 0, 1]); // question: type A, class IN
    buf.extend_from_slice(&[0xC0, 0x0C]); // compression pointer to offset 12
    buf.extend_from_slice(&[0, 1, 0, 1]); // answer: type A, class IN
    buf.extend_from_slice(&[0, 0, 0x01, 0x2C]); // ttl 300
    buf.extend_from_slice(&[0, 4]); // four bytes of resource data
    buf.extend_from_slice(&[93, 184, 216, 34]);
    buf
}

#[test]
fn parse_well_formed_response() {
    let buf = synthetic_response();
    let resp = DnsResponse::from_bytes(&buf, buf.len()).unwrap();
    assert_eq!(resp.header.id, 1337);
    assert_eq!(resp.header.header2, 0x8180);
    assert_eq!(resp.header.qd_count, 1);
    assert_eq!(resp.header.an_count, 1);
    assert_eq!(resp.name, buf[12..25].to_vec());
    assert_eq!(resp.question, DnsQuestion::new(1, 1));
    assert_eq!(resp.answer, DnsQuestion::new(1, 1));
    assert_eq!(resp.ttl, 300);
    assert_eq!(resp.address, "93.184.216.34");
}

#[test]
fn parse_short_buffer_is_truncated() {
    let buf = synthetic_response();
    for len in 0..12 {
        assert_eq!(parse_err(&buf, len), DnsError::TruncatedMessage);
    }
}

#[test]
fn parse_without_name_terminator_is_truncated() {
    let buf = synthetic_response();
    // Cut inside the name: the zero terminator never arrives.
    assert_eq!(parse_err(&buf[..20], 20), DnsError::TruncatedMessage);
}

#[test]
fn parse_cut_after_name_is_truncated() {
    let buf = synthetic_response();
    // The name terminates at offset 24, but the record is cut off after it.
    assert_eq!(parse_err(&buf[..30], 30), DnsError::TruncatedMessage);
}

#[test]
fn parse_validates_record_before_address_bytes() {
    // 41 bytes reach exactly through the resource-data length field. A bad
    // record type is reported before the missing address bytes are.
    let mut buf = synthetic_response();
    buf.truncate(41);
    assert_eq!(parse_err(&buf, 41), DnsError::TruncatedMessage);
    buf[32] = 28; // answer type AAAA instead of A
    assert_eq!(parse_err(&buf, 41), DnsError::UnsupportedRecordType);
}

#[test]
fn parse_non_a_record_is_unsupported() {
    let mut buf = synthetic_response();
    buf[32] = 28; // answer type AAAA instead of A
    assert_eq!(parse_err(&buf, buf.len()), DnsError::UnsupportedRecordType);

    let mut buf = synthetic_response();
    buf[34] = 3; // answer class CH instead of IN
    assert_eq!(parse_err(&buf, buf.len()), DnsError::UnsupportedRecordType);

    let mut buf = synthetic_response();
    buf[40] = 16; // resource data length other than 4
    assert_eq!(parse_err(&buf, buf.len()), DnsError::UnsupportedRecordType);
}

#[test]
fn address_formatting_covers_digit_widths() {
    let mut buf = synthetic_response();
    buf[41] = 0;
    buf[42] = 7;
    buf[43] = 42;
    buf[44] = 255;
    let resp = DnsResponse::from_bytes(&buf, buf.len()).unwrap();
    assert_eq!(resp.address, "0.7.42.255");
}

#[test]
fn resolver_accepts_matching_id() {
    let buf = synthetic_response();
    let addr = DnsResolver::handle_response(1337, &buf, buf.len()).unwrap();
    assert_eq!(addr, "93.184.216.34");
}

#[test]
fn resolver_rejects_mismatched_id() {
    let buf = synthetic_response();
    assert_eq!(
        DnsResolver::handle_response(42, &buf, buf.len()),
        Err(DnsError::IdMismatch)
    );
}

#[test]
fn resolver_passes_parse_errors_through() {
    let buf = synthetic_response();
    assert_eq!(
        DnsResolver::handle_response(1337, &buf, 5),
        Err(DnsError::TruncatedMessage)
    );
}

#[test]
fn resolver_builds_standard_packet() {
    let packet = DnsResolver::build_query_packet("example.com").unwrap();
    assert_eq!(packet, DnsQuery::build_query(1337, "example.com", 1, 1).unwrap());
}

#[test]
fn resolver_server_configuration() {
    let r = DnsResolver::new(String::from("1.1.1.1:53"));
    assert_eq!(r.server, "1.1.1.1:53");
    let d = DnsResolver::default();
    assert_eq!(d.server, "8.8.8.8:53");
}

#[test]
fn error_messages_name_each_failure() {
    assert_eq!(
        DnsError::EncodingError.message(),
        "a name segment exceeds the label length limit"
    );
    assert_eq!(
        DnsError::TruncatedMessage.message(),
        "response buffer shorter than required"
    );
    assert_eq!(
        DnsError::UnsupportedRecordType.message(),
        "answer is not an A/IN record"
    );
    assert_eq!(
        DnsError::IdMismatch.message(),
        "response transaction id does not match the request"
    );
    assert_eq!(DnsError::SocketError.message(), "bind, send, or receive failed");
    assert_eq!(DnsError::ParseError.message(), "malformed fixed-size field");
}
