//! Building a DNS query packet.
//!
//! A query is a fixed 12-byte header, the label-encoded name, and a 4-byte
//! question, laid out one after the other with every multi-byte field in
//! network (big-endian) byte order. Fields are written out one byte at a
//! time; nothing depends on how a struct sits in memory.

use crate::errors::DnsError;
use crate::header::{spec_pack, Header2, OpCodeEnum, RCodeEnum};
use crate::name::{encode_host_bytes, encode_name, labels_fit, push_bytes};
use vstd::prelude::*;
use vstd::string::StrSliceExecFns;
use vstd::string::StringSliceAdditionalSpecFns;

verus! {

/// The query type of an A record.
pub const QTYPE_A: u16 = 1;

/// The query class of the Internet.
pub const QCLASS_IN: u16 = 1;

/// The two bytes of `x` in network order: high byte first.
pub open spec fn u16_be(x: u16) -> Seq<u8> {
    seq![(x / 256) as u8, (x % 256) as u8]
}

/// The value two network-order bytes spell.
pub open spec fn u16_from_be(b: Seq<u8>) -> u16
    recommends
        b.len() == 2,
{
    (b[0] as int * 256 + b[1] as int) as u16
}

/// Appends the two network-order bytes of `x`.
pub fn push_u16_be(out: &mut Vec<u8>, x: u16)
    ensures
        final(out)@ == old(out)@ + u16_be(x),
{
    out.push((x / 256) as u8);
    out.push((x % 256) as u8);
    proof {
        assert(out@ =~= old(out)@ + u16_be(x));
    }
}

/// Reads a 16-bit value from two network-order bytes, and refuses a slice of
/// any other length.
pub fn u16_be_from_slice(slice: &[u8]) -> (r: Result<u16, DnsError>)
    ensures
        slice@.len() == 2 ==> r == Ok::<u16, DnsError>(u16_from_be(slice@)),
        slice@.len() != 2 ==> r == Err::<u16, DnsError>(DnsError::ParseError),
{
    if slice.len() == 2 {
        let hi = slice[0];
        let lo = slice[1];
        Ok((hi as u16) * 256 + (lo as u16))
    } else {
        Err(DnsError::ParseError)
    }
}

/// The fixed 12-byte header of a DNS message.
#[derive(Clone, Copy, Debug, PartialEq, Eq, Structural)]
pub struct DnsHeader {
    /// The transaction identifier the response must echo.
    pub id: u16,
    /// The packed flags word.
    pub header2: u16,
    /// How many questions the message carries.
    pub qd_count: u16,
    /// How many answer records the message carries.
    pub an_count: u16,
    /// How many authority records the message carries.
    pub ns_count: u16,
    /// How many additional records the message carries.
    pub ar_count: u16,
}

/// The 12 bytes of a header in network order.
pub open spec fn header_bytes(h: DnsHeader) -> Seq<u8> {
    u16_be(h.id) + u16_be(h.header2) + u16_be(h.qd_count) + u16_be(h.an_count) + u16_be(h.ns_count)
        + u16_be(h.ar_count)
}

impl DnsHeader {
    /// A header with the given fields. Values are held in host order and
    /// take network order only when the packet is written out.
    pub fn new(id: u16, h2: u16, qd: u16, an: u16, ns: u16, ar: u16) -> (r: DnsHeader)
        ensures
            r == (DnsHeader {
                id,
                header2: h2,
                qd_count: qd,
                an_count: an,
                ns_count: ns,
                ar_count: ar,
            }),
    {
        DnsHeader { id, header2: h2, qd_count: qd, an_count: an, ns_count: ns, ar_count: ar }
    }
}

/// The fixed fields of a question: record type and class.
#[derive(Clone, Copy, Debug, PartialEq, Eq, Structural)]
pub struct DnsQuestion {
    /// The record type asked for (1 asks for an A record).
    pub q_type: u16,
    /// The record class asked for (1 is the Internet class).
    pub q_class: u16,
}

/// The 4 bytes of a question's fixed fields in network order.
pub open spec fn question_bytes(q: DnsQuestion) -> Seq<u8> {
    u16_be(q.q_type) + u16_be(q.q_class)
}

impl DnsQuestion {
    /// A question with the given type and class, held in host order.
    pub fn new(qt: u16, qc: u16) -> (r: DnsQuestion)
        ensures
            r == (DnsQuestion { q_type: qt, q_class: qc }),
    {
        DnsQuestion { q_type: qt, q_class: qc }
    }
}

/// A complete query: header, question, and the name asked about.
pub struct DnsQuery {
    /// The message header.
    pub header: DnsHeader,
    /// The question's fixed fields.
    pub question: DnsQuestion,
    /// The dotted hostname the query asks about.
    pub name: String,
}

/// The whole packet a query serializes to: header, encoded name, question.
pub open spec fn query_bytes(q: DnsQuery) -> Seq<u8> {
    header_bytes(q.header) + encode_name(vstd::utf8::encode_utf8(q.name@)) + question_bytes(
        q.question,
    )
}

/// The flags of a standard recursive query: everything clear except the
/// recursion-desired bit.
pub open spec fn standard_query_flags() -> Header2 {
    Header2 {
        qr: false,
        op_code: OpCodeEnum::Query,
        aa: false,
        tc: false,
        rd: true,
        ra: false,
        r_code: RCodeEnum::NoErr,
    }
}

/// The packet `build_query` promises: a one-question header with the
/// standard flags, the encoded name, and the question fields.
pub open spec fn query_packet_bytes(id: u16, host: Seq<u8>, qtype: u16, qclass: u16) -> Seq<u8> {
    header_bytes(
        DnsHeader {
            id,
            header2: spec_pack(standard_query_flags()),
            qd_count: 1,
            an_count: 0,
            ns_count: 0,
            ar_count: 0,
        },
    ) + encode_name(host) + question_bytes(DnsQuestion { q_type: qtype, q_class: qclass })
}

impl DnsQuery {
    /// Encodes a dotted hostname into the name's wire form.
    pub fn change_dns_name(host: &str) -> (r: Result<Vec<u8>, DnsError>)
        ensures
            labels_fit(host.spec_bytes()) ==> (r matches Ok(v) && v@ == encode_name(
                host.spec_bytes(),
            )),
            !labels_fit(host.spec_bytes()) ==> r == Err::<Vec<u8>, DnsError>(
                DnsError::EncodingError,
            ),
    {
        let hb = host.as_bytes_vec();
        encode_host_bytes(&hb)
    }

    /// Serializes the query into one contiguous packet, field by field in
    /// network order.
    pub fn as_bytes(&self) -> (r: Result<Vec<u8>, DnsError>)
        ensures
            labels_fit(vstd::utf8::encode_utf8(self.name@)) ==> (r matches Ok(v) && v@
                == query_bytes(*self)),
            !labels_fit(vstd::utf8::encode_utf8(self.name@)) ==> r == Err::<Vec<u8>, DnsError>(
                DnsError::EncodingError,
            ),
    {
        let name_bytes = match Self::change_dns_name(self.name.as_str()) {
            Ok(v) => v,
            Err(e) => {
                return Err(e);
            },
        };
        let mut out: Vec<u8> = Vec::new();
        push_u16_be(&mut out, self.header.id);
        push_u16_be(&mut out, self.header.header2);
        push_u16_be(&mut out, self.header.qd_count);
        push_u16_be(&mut out, self.header.an_count);
        push_u16_be(&mut out, self.header.ns_count);
        push_u16_be(&mut out, self.header.ar_count);
        push_bytes(&mut out, &name_bytes);
        push_u16_be(&mut out, self.question.q_type);
        push_u16_be(&mut out, self.question.q_class);
        proof {
            assert(out@ =~= query_bytes(*self));
        }
        Ok(out)
    }

    /// Builds the packet of a standard recursive query for `hostname`: a
    /// one-question header under the given transaction id, the encoded name,
    /// and the question's type and class. The packet is 12 bytes of header,
    /// the name's encoding, and 4 bytes of question.
    pub fn build_query(id: u16, hostname: &str, qtype: u16, qclass: u16) -> (r: Result<
        Vec<u8>,
        DnsError,
    >)
        ensures
            labels_fit(hostname.spec_bytes()) ==> (r matches Ok(v) && v@ == query_packet_bytes(
                id,
                hostname.spec_bytes(),
                qtype,
                qclass,
            ) && v@.len() == 12 + encode_name(hostname.spec_bytes()).len() + 4),
            !labels_fit(hostname.spec_bytes()) ==> r == Err::<Vec<u8>, DnsError>(
                DnsError::EncodingError,
            ),
    {
        let flags = Header2 {
            qr: false,
            op_code: OpCodeEnum::Query,
            aa: false,
            tc: false,
            rd: true,
            ra: false,
            r_code: RCodeEnum::NoErr,
        };
        let query = DnsQuery {
            header: DnsHeader::new(id, flags.to_int(), 1, 0, 0, 0),
            question: DnsQuestion::new(qtype, qclass),
            name: hostname.to_owned(),
        };
        let r = query.as_bytes();
        proof {
            if labels_fit(hostname.spec_bytes()) {
                assert(query_bytes(query) =~= query_packet_bytes(
                    id,
                    hostname.spec_bytes(),
                    qtype,
                    qclass,
                ));
            }
        }
        r
    }
}

/// Two query packets that differ only in the transaction id have the same
/// length and are byte-identical everywhere but in the two id bytes at the
/// front.
pub proof fn lemma_query_differs_only_in_id(
    id1: u16,
    id2: u16,
    host: Seq<u8>,
    qtype: u16,
    qclass: u16,
)
    ensures
        query_packet_bytes(id1, host, qtype, qclass).len() == query_packet_bytes(
            id2,
            host,
            qtype,
            qclass,
        ).len(),
        forall|i: int|
            2 <= i < query_packet_bytes(id1, host, qtype, qclass).len()
                ==> query_packet_bytes(id1, host, qtype, qclass)[i] == #[trigger] query_packet_bytes(
                id2,
                host,
                qtype,
                qclass,
            )[i],
{
    let p1 = query_packet_bytes(id1, host, qtype, qclass);
    let p2 = query_packet_bytes(id2, host, qtype, qclass);
    let rest = u16_be(spec_pack(standard_query_flags())) + u16_be(1u16) + u16_be(0u16) + u16_be(
        0u16,
    ) + u16_be(0u16) + encode_name(host) + question_bytes(
        DnsQuestion { q_type: qtype, q_class: qclass },
    );
    assert(p1 =~= u16_be(id1) + rest);
    assert(p2 =~= u16_be(id2) + rest);
    assert forall|i: int| 2 <= i < p1.len() implies p1[i] == #[trigger] p2[i] by {
        assert(p1[i] == rest[i - 2]);
        assert(p2[i] == rest[i - 2]);
    }
}

} // verus!
