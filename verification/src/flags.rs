//! The 16-bit bit-packed flags field of the DNS header.

use vstd::prelude::*;

use crate::error::DecodeError;
use crate::registry::DnsOpcode;
use crate::registry::DnsRCode;

verus! {

/// The eight boolean and categorical sub-fields packed into bytes 2 and 3
/// of the header. The reserved Z bit is always zero on the wire and is not
/// modeled.
#[derive(Clone, Copy, PartialEq, Eq, Structural, Debug)]
pub struct DnsFlags {
    /// Query/Response: true if this message is a response, false for a query.
    pub qr_bit: bool,
    /// The DNS operation being performed, a 4-bit field.
    pub opcode: DnsOpcode,
    /// Authoritative Answer: true in a response from the authority for the
    /// queried domain.
    pub aa_bit: bool,
    /// TrunCation: true if the message was cut short for being too long.
    pub tc_bit: bool,
    /// Recursion Desired: true if the query asks for recursive resolution;
    /// copied into the response.
    pub rd_bit: bool,
    /// Recursion Available: true in a response from a server that supports
    /// recursion.
    pub ra_bit: bool,
    /// Authenticated Data (DNSSEC, RFC 4035): all response data was
    /// authenticated.
    pub ad_bit: bool,
    /// Checking Disabled (DNSSEC, RFC 4035): the requester accepts
    /// unauthenticated data.
    pub cd_bit: bool,
    /// The status of a response, a 4-bit field.
    pub rcode: DnsRCode,
}

/// The first wire byte of the flags: QR at bit 7, the opcode at bits 3-6,
/// AA at bit 2, TC at bit 1, RD at bit 0.
pub open spec fn spec_flags_byte0(f: DnsFlags) -> u8 {
    (if f.qr_bit { 0x80u8 } else { 0u8 }) | ((f.opcode.code() & 0xf) << 3)
        | (if f.aa_bit { 0x04u8 } else { 0u8 }) | (if f.tc_bit { 0x02u8 } else { 0u8 })
        | (if f.rd_bit { 0x01u8 } else { 0u8 })
}

/// The second wire byte of the flags: RA at bit 7, the reserved Z bit
/// (always zero) at bit 6, AD at bit 5, CD at bit 4, the response code at
/// bits 0-3.
pub open spec fn spec_flags_byte1(f: DnsFlags) -> u8 {
    (if f.ra_bit { 0x80u8 } else { 0u8 }) | (if f.ad_bit { 0x20u8 } else { 0u8 })
        | (if f.cd_bit { 0x10u8 } else { 0u8 }) | (f.rcode.code() & 0xf)
}

/// The flags value read from the two wire bytes `b0 b1`, or
/// `UnknownEnumValue` when the 4-bit opcode or response-code field holds an
/// unassigned value.
pub open spec fn spec_flags_decode(b0: u8, b1: u8) -> Result<DnsFlags, DecodeError> {
    match (DnsOpcode::of_code((b0 >> 3) & 0xf), DnsRCode::of_code(b1 & 0xf)) {
        (Some(op), Some(rc)) => Ok(
            DnsFlags {
                qr_bit: (b0 >> 7) & 1 == 1,
                opcode: op,
                aa_bit: (b0 >> 2) & 1 == 1,
                tc_bit: (b0 >> 1) & 1 == 1,
                rd_bit: b0 & 1 == 1,
                ra_bit: (b1 >> 7) & 1 == 1,
                ad_bit: (b1 >> 5) & 1 == 1,
                cd_bit: (b1 >> 4) & 1 == 1,
                rcode: rc,
            },
        ),
        _ => Err(DecodeError::UnknownEnumValue),
    }
}

impl DnsFlags {
    /// Decode the flags from the first two bytes of the slice.
    ///
    /// Fails with `TruncatedInput` when fewer than two bytes are given and
    /// with `UnknownEnumValue` when the opcode or response-code field holds
    /// a value outside its registry.
    pub fn from_bytes(bytes: &[u8]) -> (r: Result<DnsFlags, DecodeError>)
        ensures
            bytes@.len() >= 2 ==> r == spec_flags_decode(bytes@[0], bytes@[1]),
            bytes@.len() < 2 ==> r == Err::<DnsFlags, DecodeError>(DecodeError::TruncatedInput),
    {
        if bytes.len() < 2 {
            return Err(DecodeError::TruncatedInput);
        }
        let b0 = bytes[0];
        let b1 = bytes[1];

        let qr_bit: bool = (b0 >> 7) & 1 == 1;
        let aa_bit: bool = (b0 >> 2) & 1 == 1;
        let tc_bit: bool = (b0 >> 1) & 1 == 1;
        let rd_bit: bool = b0 & 1 == 1;
        let ra_bit: bool = (b1 >> 7) & 1 == 1;
        let ad_bit: bool = (b1 >> 5) & 1 == 1;
        let cd_bit: bool = (b1 >> 4) & 1 == 1;

        let opcode = DnsOpcode::from_wire((b0 >> 3) & 0xf)?;
        let rcode = DnsRCode::from_wire(b1 & 0xf)?;

        Ok(
            DnsFlags {
                qr_bit,
                opcode,
                aa_bit,
                tc_bit,
                rd_bit,
                ra_bit,
                ad_bit,
                cd_bit,
                rcode,
            },
        )
    }

    /// Encode the flags as their two wire bytes. Total: the opcode and
    /// response code are masked to four bits before shifting, so no field
    /// can spill into its neighbours.
    pub fn to_bytes(&self) -> (r: [u8; 2])
        ensures
            r@ == seq![spec_flags_byte0(*self), spec_flags_byte1(*self)],
    {
        let op = self.opcode.to_wire();
        let rc = self.rcode.to_wire();
        let b0: u8 = (if self.qr_bit { 0x80u8 } else { 0u8 }) | ((op & 0xf) << 3)
            | (if self.aa_bit { 0x04u8 } else { 0u8 }) | (if self.tc_bit { 0x02u8 } else { 0u8 })
            | (if self.rd_bit { 0x01u8 } else { 0u8 });
        let b1: u8 = (if self.ra_bit { 0x80u8 } else { 0u8 })
            | (if self.ad_bit { 0x20u8 } else { 0u8 }) | (if self.cd_bit { 0x10u8 } else { 0u8 })
            | (rc & 0xf);
        let r = [b0, b1];
        proof {
            assert(r@ =~= seq![spec_flags_byte0(*self), spec_flags_byte1(*self)]);
        }
        r
    }
}

/// Decoding the two bytes an arbitrary flags value encodes to gives back
/// exactly that value, for every combination of the boolean sub-fields and
/// every registered opcode and response code.
pub proof fn lemma_flags_round_trip(f: DnsFlags)
    ensures
        spec_flags_decode(spec_flags_byte0(f), spec_flags_byte1(f)) == Ok::<
            DnsFlags,
            DecodeError,
        >(f),
{
    let b0 = spec_flags_byte0(f);
    let b1 = spec_flags_byte1(f);
    let q: u8 = if f.qr_bit { 0x80 } else { 0 };
    let a: u8 = if f.aa_bit { 0x04 } else { 0 };
    let t: u8 = if f.tc_bit { 0x02 } else { 0 };
    let d: u8 = if f.rd_bit { 0x01 } else { 0 };
    let op: u8 = f.opcode.code();
    let r: u8 = if f.ra_bit { 0x80 } else { 0 };
    let ad: u8 = if f.ad_bit { 0x20 } else { 0 };
    let c: u8 = if f.cd_bit { 0x10 } else { 0 };
    let rc: u8 = f.rcode.code();
    crate::registry::lemma_opcode_code_round_trip(f.opcode);
    crate::registry::lemma_rcode_code_round_trip(f.rcode);
    assert((q == 0x80 || q == 0) && (a == 0x04 || a == 0) && (t == 0x02 || t == 0) && (d == 0x01
        || d == 0) && op <= 15 ==> (((q | ((op & 0xf) << 3) | a | t | d) >> 7) & 1 == 1 <==> q
        == 0x80) && (((q | ((op & 0xf) << 3) | a | t | d) >> 3) & 0xf == op) && (((q | ((op & 0xf)
        << 3) | a | t | d) >> 2) & 1 == 1 <==> a == 0x04) && (((q | ((op & 0xf) << 3) | a | t | d)
        >> 1) & 1 == 1 <==> t == 0x02) && ((q | ((op & 0xf) << 3) | a | t | d) & 1 == 1 <==> d
        == 0x01)) by (bit_vector);
    assert((r == 0x80 || r == 0) && (ad == 0x20 || ad == 0) && (c == 0x10 || c == 0) && rc <= 15
        ==> (((r | ad | c | (rc & 0xf)) >> 7) & 1 == 1 <==> r == 0x80) && (((r | ad | c | (rc
        & 0xf)) >> 5) & 1 == 1 <==> ad == 0x20) && (((r | ad | c | (rc & 0xf)) >> 4) & 1 == 1 <==> c
        == 0x10) && ((r | ad | c | (rc & 0xf)) & 0xf == rc)) by (bit_vector);
}

} // verus!
