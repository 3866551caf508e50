//! Parsing a DNS response.
//!
//! A response is walked strictly in order: the 12-byte header, the echoed
//! question's name up to and including its zero terminator, the question's
//! fixed fields, a two-byte compression pointer that stands in for the
//! answer's name, the answer's type and class, its time to live, the
//! resource-data length, and finally the four address bytes. Every read is
//! bounds-checked against the received length first; a buffer that ends too
//! soon is refused, never overrun.

use crate::errors::DnsError;
use crate::message::{u16_from_be, u16_be_from_slice, DnsHeader, DnsQuestion, QCLASS_IN, QTYPE_A};
use vstd::prelude::*;
use vstd::slice::{slice_subrange, slice_to_vec};
use vstd::string::StringExecFns;

verus! {

/// The index of the first zero byte of `b` at or after `i`, or `b.len()`
/// when there is none.
pub open spec fn scan_zero(b: Seq<u8>, i: int) -> int
    decreases b.len() - i
        when 0 <= i <= b.len()
{
    if i >= b.len() {
        i
    } else if b[i] == 0 {
        i
    } else {
        scan_zero(b, i + 1)
    }
}

/// The 16-bit value at byte offset `i` of `b`, in network order.
pub open spec fn u16_at(b: Seq<u8>, i: int) -> u16
    recommends
        0 <= i,
        i + 2 <= b.len(),
{
    u16_from_be(b.subrange(i, i + 2))
}

/// The 32-bit value at byte offset `i` of `b`, in network order.
pub open spec fn u32_at(b: Seq<u8>, i: int) -> u32
    recommends
        0 <= i,
        i + 4 <= b.len(),
{
    (b[i] as int * 0x1000000 + b[i + 1] as int * 0x10000 + b[i + 2] as int * 256 + b[i
        + 3] as int) as u32
}

/// The header spelled by the first 12 bytes of `b`.
pub open spec fn parsed_header(b: Seq<u8>) -> DnsHeader
    recommends
        b.len() >= 12,
{
    DnsHeader {
        id: u16_at(b, 0),
        header2: u16_at(b, 2),
        qd_count: u16_at(b, 4),
        an_count: u16_at(b, 6),
        ns_count: u16_at(b, 8),
        ar_count: u16_at(b, 10),
    }
}

/// How parsing the received bytes `b` ends: which error it reports, or that
/// every step fits and the answer is an A record of the Internet class with
/// a 4-byte address.
pub open spec fn parse_outcome(b: Seq<u8>) -> Result<(), DnsError> {
    if b.len() < 12 {
        Err(DnsError::TruncatedMessage)
    } else {
        let z = scan_zero(b, 12);
        if z >= b.len() {
            Err(DnsError::TruncatedMessage)
        } else if z + 17 > b.len() {
            Err(DnsError::TruncatedMessage)
        } else if u16_at(b, z + 7) != QTYPE_A || u16_at(b, z + 9) != QCLASS_IN || u16_at(b, z + 15)
            != 4 {
            Err(DnsError::UnsupportedRecordType)
        } else if z + 21 > b.len() {
            Err(DnsError::TruncatedMessage)
        } else {
            Ok(())
        }
    }
}

/// The decimal character of one digit.
pub open spec fn digit_char(d: u8) -> char {
    if d == 0 {
        '0'
    } else if d == 1 {
        '1'
    } else if d == 2 {
        '2'
    } else if d == 3 {
        '3'
    } else if d == 4 {
        '4'
    } else if d == 5 {
        '5'
    } else if d == 6 {
        '6'
    } else if d == 7 {
        '7'
    } else if d == 8 {
        '8'
    } else {
        '9'
    }
}

/// The decimal spelling of one byte, without leading zeros.
pub open spec fn dec_chars(n: u8) -> Seq<char> {
    if n < 10 {
        seq![digit_char(n)]
    } else if n < 100 {
        seq![digit_char(n / 10), digit_char(n % 10)]
    } else {
        seq![digit_char(n / 100), digit_char((n / 10) % 10), digit_char(n % 10)]
    }
}

/// The dotted-quad spelling of four address bytes.
pub open spec fn dotted_quad(a: u8, b: u8, c: u8, d: u8) -> Seq<char> {
    dec_chars(a) + seq!['.'] + dec_chars(b) + seq!['.'] + dec_chars(c) + seq!['.'] + dec_chars(d)
}

/// Appends one decimal digit.
fn push_digit(s: &mut String, d: u8)
    requires
        d < 10,
    ensures
        final(s)@ == old(s)@ + seq![digit_char(d)],
{
    proof {
        reveal_strlit("0");
        reveal_strlit("1");
        reveal_strlit("2");
        reveal_strlit("3");
        reveal_strlit("4");
        reveal_strlit("5");
        reveal_strlit("6");
        reveal_strlit("7");
        reveal_strlit("8");
        reveal_strlit("9");
    }
    match d {
        0 => s.append("0"),
        1 => s.append("1"),
        2 => s.append("2"),
        3 => s.append("3"),
        4 => s.append("4"),
        5 => s.append("5"),
        6 => s.append("6"),
        7 => s.append("7"),
        8 => s.append("8"),
        _ => s.append("9"),
    }
    proof {
        assert(final(s)@ =~= old(s)@ + seq![digit_char(d)]);
    }
}

/// Appends the decimal spelling of one byte.
fn push_decimal(s: &mut String, n: u8)
    ensures
        final(s)@ == old(s)@ + dec_chars(n),
{
    if n >= 100 {
        push_digit(s, n / 100);
        push_digit(s, (n / 10) % 10);
        push_digit(s, n % 10);
        proof {
            assert(final(s)@ =~= old(s)@ + dec_chars(n));
        }
    } else if n >= 10 {
        push_digit(s, n / 10);
        push_digit(s, n % 10);
        proof {
            assert(final(s)@ =~= old(s)@ + dec_chars(n));
        }
    } else {
        push_digit(s, n);
    }
}

/// The dotted-quad string of four address bytes.
fn format_quad(a: u8, b: u8, c: u8, d: u8) -> (r: String)
    ensures
        r@ == dotted_quad(a, b, c, d),
{
    proof {
        reveal_strlit(".");
    }
    let mut s = String::new();
    push_decimal(&mut s, a);
    s.append(".");
    push_decimal(&mut s, b);
    s.append(".");
    push_decimal(&mut s, c);
    s.append(".");
    push_decimal(&mut s, d);
    proof {
        assert(s@ =~= dotted_quad(a, b, c, d));
    }
    s
}

/// Reads the 16-bit network-order value at offset `i`.
fn read_u16(bytes: &[u8], i: usize) -> (r: u16)
    requires
        i + 2 <= bytes@.len(),
    ensures
        r == u16_at(bytes@, i as int),
{
    let n = bytes.len();
    assert(i + 2 <= n);
    let s = slice_subrange(bytes, i, i + 2);
    match u16_be_from_slice(s) {
        Ok(v) => v,
        Err(_) => {
            proof {
                assert(false);
            }
            0
        },
    }
}

/// Reads the 32-bit network-order value at offset `i`.
fn read_u32(bytes: &[u8], i: usize) -> (r: u32)
    requires
        i + 4 <= bytes@.len(),
    ensures
        r == u32_at(bytes@, i as int),
{
    let n = bytes.len();
    assert(i + 4 <= n);
    let b0 = bytes[i];
    let b1 = bytes[i + 1];
    let b2 = bytes[i + 2];
    let b3 = bytes[i + 3];
    (b0 as u32) * 0x1000000 + (b1 as u32) * 0x10000 + (b2 as u32) * 256 + (b3 as u32)
}

/// A parsed response: the header, the echoed name and question, the answer's
/// fixed fields, its time to live, and the address the record carries.
pub struct DnsResponse {
    /// The response header.
    pub header: DnsHeader,
    /// The echoed question name, in wire form up to and including its zero
    /// terminator.
    pub name: Vec<u8>,
    /// The echoed question's type and class.
    pub question: DnsQuestion,
    /// The answer record's type and class.
    pub answer: DnsQuestion,
    /// How long the answer may be cached, in seconds.
    pub ttl: u32,
    /// The answer's address as a dotted quad.
    pub address: String,
}

impl DnsResponse {
    /// Parses the first `len` received bytes of `bytes` as a one-answer DNS
    /// response. A buffer that ends before any step is refused as truncated
    /// (in particular, any buffer of fewer than 12 bytes), and an answer
    /// that is not an A record of the Internet class with a 4-byte address
    /// is refused as unsupported before its address bytes are touched.
    pub fn from_bytes(bytes: &[u8], len: usize) -> (r: Result<DnsResponse, DnsError>)
        requires
            len <= bytes@.len(),
        ensures
            ({
                let b = bytes@.take(len as int);
                match r {
                    Result::Err(e) => parse_outcome(b) == Err::<(), DnsError>(e),
                    Result::Ok(resp) => {
                        let z = scan_zero(b, 12);
                        &&& parse_outcome(b) == Ok::<(), DnsError>(())
                        &&& resp.header == parsed_header(b)
                        &&& resp.name@ == b.subrange(12, z + 1)
                        &&& resp.question == (DnsQuestion {
                            q_type: u16_at(b, z + 1),
                            q_class: u16_at(b, z + 3),
                        })
                        &&& resp.answer == (DnsQuestion {
                            q_type: u16_at(b, z + 7),
                            q_class: u16_at(b, z + 9),
                        })
                        &&& resp.ttl == u32_at(b, z + 11)
                        &&& resp.address@ == dotted_quad(
                            b[z + 17],
                            b[z + 18],
                            b[z + 19],
                            b[z + 20],
                        )
                    },
                }
            }),
            len < 12 ==> r == Err::<DnsResponse, DnsError>(DnsError::TruncatedMessage),
    {
        let ghost b = bytes@.take(len as int);
        if len < 12 {
            return Err(DnsError::TruncatedMessage);
        }
        proof {
            assert forall|i: int| 0 <= i && i + 2 <= len implies #[trigger] b.subrange(i, i + 2)
                =~= bytes@.subrange(i, i + 2) by {}
        }
        let header = DnsHeader::new(
            read_u16(bytes, 0),
            read_u16(bytes, 2),
            read_u16(bytes, 4),
            read_u16(bytes, 6),
            read_u16(bytes, 8),
            read_u16(bytes, 10),
        );
        let mut index: usize = 12;
        while index < len && bytes[index] != 0
            invariant
                12 <= index <= len,
                len <= bytes@.len(),
                b == bytes@.take(len as int),
                scan_zero(b, 12) == scan_zero(b, index as int),
            decreases len - index,
        {
            proof {
                assert(b[index as int] == bytes@[index as int]);
            }
            index = index + 1;
        }
        let z = index;
        proof {
            if z < len {
                assert(b[z as int] == bytes@[z as int]);
                assert(scan_zero(b, z as int) == z);
            } else {
                assert(scan_zero(b, z as int) == z);
            }
        }
        if len - z < 17 {
            return Err(DnsError::TruncatedMessage);
        }
        proof {
            assert(b.subrange(12, z + 1) =~= bytes@.subrange(12, z + 1));
        }
        let name = slice_to_vec(slice_subrange(bytes, 12, z + 1));
        let question = DnsQuestion::new(read_u16(bytes, z + 1), read_u16(bytes, z + 3));
        let _name_ptr = read_u16(bytes, z + 5);
        let answer = DnsQuestion::new(read_u16(bytes, z + 7), read_u16(bytes, z + 9));
        let ttl = read_u32(bytes, z + 11);
        let rd_len = read_u16(bytes, z + 15);
        proof {
            assert(b[z + 11] == bytes@[z + 11] && b[z + 12] == bytes@[z + 12] && b[z + 13]
                == bytes@[z + 13] && b[z + 14] == bytes@[z + 14]);
        }
        if answer.q_type != QTYPE_A || answer.q_class != QCLASS_IN || rd_len != 4 {
            return Err(DnsError::UnsupportedRecordType);
        }
        if len - z < 21 {
            return Err(DnsError::TruncatedMessage);
        }
        let a0 = bytes[z + 17];
        let a1 = bytes[z + 18];
        let a2 = bytes[z + 19];
        let a3 = bytes[z + 20];
        proof {
            assert(b[z + 17] == bytes@[z + 17] && b[z + 18] == bytes@[z + 18] && b[z + 19]
                == bytes@[z + 19] && b[z + 20] == bytes@[z + 20]);
        }
        let address = format_quad(a0, a1, a2, a3);
        Ok(DnsResponse { header, name, question, answer, ttl, address })
    }
}

} // verus!
