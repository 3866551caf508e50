//! The 16-bit flags word of a DNS header.
//!
//! The word packs, from the most significant bit down: the query/response
//! bit, a 4-bit opcode, the authoritative-answer, truncation,
//! recursion-desired and recursion-available bits, and a 4-bit response
//! code. Unknown opcode and response-code values are a normal part of the
//! wire protocol, so both enumerations carry them in an explicit variant
//! instead of clamping them to a known meaning.

use vstd::prelude::*;

verus! {

/// The kind of query a message carries.
#[derive(Clone, Copy, Debug, PartialEq, Eq, Structural)]
pub enum OpCodeEnum {
    /// A standard query.
    Query,
    /// An inverse query.
    IQuery,
    /// A server status request.
    Status,
    /// Any other wire value, kept as it arrived.
    Unknown(u16),
}

/// The numeric opcode each variant stands for.
pub open spec fn opcode_to_int(op: OpCodeEnum) -> u16 {
    match op {
        OpCodeEnum::Query => 0,
        OpCodeEnum::IQuery => 1,
        OpCodeEnum::Status => 2,
        OpCodeEnum::Unknown(v) => v,
    }
}

/// The variant a numeric opcode decodes to.
pub open spec fn opcode_from_int(val: u16) -> OpCodeEnum {
    if val == 0 {
        OpCodeEnum::Query
    } else if val == 1 {
        OpCodeEnum::IQuery
    } else if val == 2 {
        OpCodeEnum::Status
    } else {
        OpCodeEnum::Unknown(val)
    }
}

impl OpCodeEnum {
    /// Decodes a numeric opcode, keeping an unknown value as it arrived.
    pub fn from_int(val: u16) -> (r: OpCodeEnum)
        ensures
            r == opcode_from_int(val),
    {
        match val {
            0 => OpCodeEnum::Query,
            1 => OpCodeEnum::IQuery,
            2 => OpCodeEnum::Status,
            _ => OpCodeEnum::Unknown(val),
        }
    }

    /// The numeric opcode this variant stands for.
    pub fn to_int(&self) -> (r: u16)
        ensures
            r == opcode_to_int(*self),
    {
        match self {
            OpCodeEnum::Query => 0,
            OpCodeEnum::IQuery => 1,
            OpCodeEnum::Status => 2,
            OpCodeEnum::Unknown(v) => *v,
        }
    }
}

/// The status a response reports.
#[derive(Clone, Copy, Debug, PartialEq, Eq, Structural)]
pub enum RCodeEnum {
    /// No error condition.
    NoErr,
    /// The server could not interpret the query.
    FormatErr,
    /// The server failed while processing.
    ServerErr,
    /// The queried name does not exist.
    NameErr,
    /// The query kind is not implemented.
    NotImplErr,
    /// The server refused the query.
    RefusedErr,
    /// Any other wire value, kept as it arrived.
    Unknown(u16),
}

/// The numeric response code each variant stands for.
pub open spec fn rcode_to_int(rc: RCodeEnum) -> u16 {
    match rc {
        RCodeEnum::NoErr => 0,
        RCodeEnum::FormatErr => 1,
        RCodeEnum::ServerErr => 2,
        RCodeEnum::NameErr => 3,
        RCodeEnum::NotImplErr => 4,
        RCodeEnum::RefusedErr => 5,
        RCodeEnum::Unknown(v) => v,
    }
}

/// The variant a numeric response code decodes to.
pub open spec fn rcode_from_int(val: u16) -> RCodeEnum {
    if val == 0 {
        RCodeEnum::NoErr
    } else if val == 1 {
        RCodeEnum::FormatErr
    } else if val == 2 {
        RCodeEnum::ServerErr
    } else if val == 3 {
        RCodeEnum::NameErr
    } else if val == 4 {
        RCodeEnum::NotImplErr
    } else if val == 5 {
        RCodeEnum::RefusedErr
    } else {
        RCodeEnum::Unknown(val)
    }
}

impl RCodeEnum {
    /// Decodes a numeric response code, keeping an unknown value as it
    /// arrived.
    pub fn from_int(val: u16) -> (r: RCodeEnum)
        ensures
            r == rcode_from_int(val),
    {
        match val {
            0 => RCodeEnum::NoErr,
            1 => RCodeEnum::FormatErr,
            2 => RCodeEnum::ServerErr,
            3 => RCodeEnum::NameErr,
            4 => RCodeEnum::NotImplErr,
            5 => RCodeEnum::RefusedErr,
            _ => RCodeEnum::Unknown(val),
        }
    }

    /// The numeric response code this variant stands for.
    pub fn to_int(&self) -> (r: u16)
        ensures
            r == rcode_to_int(*self),
    {
        match self {
            RCodeEnum::NoErr => 0,
            RCodeEnum::FormatErr => 1,
            RCodeEnum::ServerErr => 2,
            RCodeEnum::NameErr => 3,
            RCodeEnum::NotImplErr => 4,
            RCodeEnum::RefusedErr => 5,
            RCodeEnum::Unknown(v) => *v,
        }
    }
}

/// The unpacked fields of the flags word.
#[derive(Clone, Copy, Debug, PartialEq, Eq, Structural)]
pub struct Header2 {
    /// True in a response, false in a query.
    pub qr: bool,
    /// The kind of query.
    pub op_code: OpCodeEnum,
    /// The answering server is an authority for the name.
    pub aa: bool,
    /// The message was truncated in transit.
    pub tc: bool,
    /// The sender asks the server to recurse.
    pub rd: bool,
    /// The server offers recursion.
    pub ra: bool,
    /// The response status.
    pub r_code: RCodeEnum,
}

/// One when the flag is set, zero otherwise.
pub open spec fn flag_bit(b: bool) -> u16 {
    if b {
        1u16
    } else {
        0u16
    }
}

/// The flags word a field tuple packs to: `qr` at bit 15, the opcode at bits
/// 11 to 14, then `aa`, `tc`, `rd` and `ra` at bits 10 down to 7, and the
/// response code at bits 0 to 3.
pub open spec fn spec_pack(h: Header2) -> u16 {
    (flag_bit(h.qr) << 15) | ((opcode_to_int(h.op_code) & 0xf) << 11) | (flag_bit(h.aa) << 10) | (
    flag_bit(h.tc) << 9) | (flag_bit(h.rd) << 8) | (flag_bit(h.ra) << 7) | (rcode_to_int(h.r_code)
        & 0xf)
}

/// The field tuple a flags word unpacks to.
pub open spec fn spec_unpack(data: u16) -> Header2 {
    Header2 {
        qr: (data >> 15) == 1,
        op_code: opcode_from_int((data & 0x7800) >> 11),
        aa: (data & 0x400) == 0x400,
        tc: (data & 0x200) == 0x200,
        rd: (data & 0x100) == 0x100,
        ra: (data & 0x80) == 0x80,
        r_code: rcode_from_int(data & 0xf),
    }
}

impl Header2 {
    /// A field tuple is well formed when its opcode and response code fit
    /// their 4-bit fields and carry an `Unknown` payload only for a value no
    /// named variant covers.
    pub open spec fn wf(self) -> bool {
        &&& opcode_to_int(self.op_code) < 16
        &&& rcode_to_int(self.r_code) < 16
        &&& self.op_code == opcode_from_int(opcode_to_int(self.op_code))
        &&& self.r_code == rcode_from_int(rcode_to_int(self.r_code))
    }

    /// Packs the fields into the flags word.
    pub fn to_int(self) -> (r: u16)
        requires
            opcode_to_int(self.op_code) < 16,
            rcode_to_int(self.r_code) < 16,
        ensures
            r == spec_pack(self),
    {
        let qr: u16 = if self.qr {
            1
        } else {
            0
        };
        let aa: u16 = if self.aa {
            1
        } else {
            0
        };
        let tc: u16 = if self.tc {
            1
        } else {
            0
        };
        let rd: u16 = if self.rd {
            1
        } else {
            0
        };
        let ra: u16 = if self.ra {
            1
        } else {
            0
        };
        (qr << 15) | ((self.op_code.to_int() & 0xf) << 11) | (aa << 10) | (tc << 9) | (rd << 8) | (
        ra << 7) | (self.r_code.to_int() & 0xf)
    }

    /// Unpacks a flags word into its fields. Every result is well formed.
    pub fn from_int(data: u16) -> (r: Header2)
        ensures
            r == spec_unpack(data),
            r.wf(),
    {
        let op_val = (data & 0x7800) >> 11;
        let rc_val = data & 0xf;
        proof {
            assert((data & 0x7800) >> 11 < 16 && data & 0xf < 16) by (bit_vector);
        }
        Header2 {
            qr: (data >> 15) == 1,
            op_code: OpCodeEnum::from_int(op_val),
            aa: (data & 0x400) == 0x400,
            tc: (data & 0x200) == 0x200,
            rd: (data & 0x100) == 0x100,
            ra: (data & 0x80) == 0x80,
            r_code: RCodeEnum::from_int(rc_val),
        }
    }
}

/// Round trip through the flags word: unpacking what a well-formed field
/// tuple packs to gives the tuple back.
pub proof fn lemma_pack_unpack(h: Header2)
    requires
        h.wf(),
    ensures
        spec_unpack(spec_pack(h)) == h,
{
    let q = flag_bit(h.qr);
    let o = opcode_to_int(h.op_code);
    let a = flag_bit(h.aa);
    let t = flag_bit(h.tc);
    let d = flag_bit(h.rd);
    let e = flag_bit(h.ra);
    let c = rcode_to_int(h.r_code);
    let w = spec_pack(h);
    assert(w == (q << 15) | ((o & 0xf) << 11) | (a << 10) | (t << 9) | (d << 8) | (e << 7) | (c
        & 0xf));
    assert((w >> 15) == q && ((w & 0x7800) >> 11) == o && ((w & 0x400) == 0x400) == (a == 1) && ((w
        & 0x200) == 0x200) == (t == 1) && ((w & 0x100) == 0x100) == (d == 1) && ((w & 0x80) == 0x80)
        == (e == 1) && (w & 0xf) == c) by (bit_vector)
        requires
            q <= 1 && a <= 1 && t <= 1 && d <= 1 && e <= 1 && o < 16 && c < 16 && w == (q << 15) | (
            (o & 0xf) << 11) | (a << 10) | (t << 9) | (d << 8) | (e << 7) | (c & 0xf),
    ;
    assert(((w >> 15) == 1) == h.qr);
}

} // verus!
