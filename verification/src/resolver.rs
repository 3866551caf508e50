//! The resolution pipeline around the codec.
//!
//! A resolution builds one query packet, has the caller send it over UDP and
//! receive one datagram, and then checks and reads the response. The socket
//! work stays with the caller; this module owns everything that can be said
//! about the bytes: which packet goes out, and what any received buffer
//! means, including the refusal of a response whose transaction id is not
//! the request's.

use crate::errors::DnsError;
use crate::message::{query_packet_bytes, DnsQuery, QCLASS_IN, QTYPE_A};
use crate::name::labels_fit;
use crate::response::{dotted_quad, parse_outcome, parsed_header, scan_zero, DnsResponse};
use vstd::prelude::*;
use vstd::string::StringExecFns;
use vstd::string::StringSliceAdditionalSpecFns;

verus! {

/// The transaction id stamped on every query this resolver builds.
pub const QUERY_ID: u16 = 1337;

/// A stub resolver: it prepares query packets and reads response buffers,
/// and leaves the socket to the caller.
pub struct DnsResolver {
    /// The upstream server the caller should send to, as "address:port"
    /// text.
    pub server: String,
}

impl DnsResolver {
    /// A resolver that asks the given upstream server.
    pub fn new(server: String) -> (r: DnsResolver)
        ensures
            r.server == server,
    {
        DnsResolver { server }
    }

    /// The packet to send for `host`: a standard recursive A-record query of
    /// the Internet class under this resolver's transaction id.
    pub fn build_query_packet(host: &str) -> (r: Result<Vec<u8>, DnsError>)
        ensures
            labels_fit(host.spec_bytes()) ==> (r matches Ok(v) && v@ == query_packet_bytes(
                QUERY_ID,
                host.spec_bytes(),
                QTYPE_A,
                QCLASS_IN,
            )),
            !labels_fit(host.spec_bytes()) ==> r == Err::<Vec<u8>, DnsError>(
                DnsError::EncodingError,
            ),
    {
        DnsQuery::build_query(QUERY_ID, host, QTYPE_A, QCLASS_IN)
    }

    /// Reads the received buffer as the answer to the request with id
    /// `request_id`: the response must parse, must echo that id, and then
    /// yields the answer's address as a dotted quad. A response that parses
    /// but echoes another id is refused with `IdMismatch`.
    pub fn handle_response(request_id: u16, bytes: &[u8], len: usize) -> (r: Result<
        String,
        DnsError,
    >)
        requires
            len <= bytes@.len(),
        ensures
            ({
                let b = bytes@.take(len as int);
                match r {
                    Result::Err(e) => {
                        if e == DnsError::IdMismatch {
                            parse_outcome(b) == Ok::<(), DnsError>(()) && parsed_header(b).id
                                != request_id
                        } else {
                            parse_outcome(b) == Err::<(), DnsError>(e)
                        }
                    },
                    Result::Ok(addr) => {
                        let z = scan_zero(b, 12);
                        &&& parse_outcome(b) == Ok::<(), DnsError>(())
                        &&& parsed_header(b).id == request_id
                        &&& addr@ == dotted_quad(b[z + 17], b[z + 18], b[z + 19], b[z + 20])
                    },
                }
            }),
            ({
                let b = bytes@.take(len as int);
                parse_outcome(b) == Ok::<(), DnsError>(()) && parsed_header(b).id != request_id
                    ==> r == Err::<String, DnsError>(DnsError::IdMismatch)
            }),
    {
        let resp = match DnsResponse::from_bytes(bytes, len) {
            Ok(resp) => resp,
            Err(e) => {
                return Err(e);
            },
        };
        if resp.header.id != request_id {
            return Err(DnsError::IdMismatch);
        }
        Ok(resp.address)
    }
}

impl Default for DnsResolver {
    /// A resolver pointed at a stock public upstream on the standard DNS
    /// port.
    fn default() -> (r: DnsResolver)
        ensures
            r.server@ == "8.8.8.8:53"@,
    {
        DnsResolver { server: String::from_str("8.8.8.8:53") }
    }
}

} // verus!
