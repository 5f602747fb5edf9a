//! Closed enumerations mapping wire integers to symbolic names, following
//! the IANA DNS parameters registry.
//!
//! Each registry is a pair of total functions: a `code` giving the wire
//! integer of a variant, and a lookup that either matches a registered
//! variant or reports `UnknownEnumValue` — an unassigned value is a decode
//! failure, never a default and never a panic.

use vstd::prelude::*;

use crate::error::DecodeError;

verus! {

/// The DNS operation requested by a message, a 4-bit header field.
#[derive(Clone, Copy, PartialEq, Eq, Structural, Debug)]
pub enum DnsOpcode {
    /// 0: standard query
    Query,
    /// 1: inverse query (obsoleted by RFC 3425)
    IQuery,
    /// 2: server status request
    Status,
    /// 4: notify of zone change (RFC 1996)
    Zone,
    /// 5: dynamic update to DNS records (RFC 2136)
    Update,
    /// 6: DNS Stateful Operations (RFC 8490)
    DSO,
}

impl DnsOpcode {
    /// The wire value of this opcode; always at most 15, as the field is
    /// four bits wide.
    pub open spec fn code(self) -> u8 {
        match self {
            DnsOpcode::Query => 0,
            DnsOpcode::IQuery => 1,
            DnsOpcode::Status => 2,
            DnsOpcode::Zone => 4,
            DnsOpcode::Update => 5,
            DnsOpcode::DSO => 6,
        }
    }

    /// The opcode registered under wire value `n`, if any.
    pub open spec fn of_code(n: u8) -> Option<DnsOpcode> {
        match n {
            0 => Some(DnsOpcode::Query),
            1 => Some(DnsOpcode::IQuery),
            2 => Some(DnsOpcode::Status),
            4 => Some(DnsOpcode::Zone),
            5 => Some(DnsOpcode::Update),
            6 => Some(DnsOpcode::DSO),
            _ => None,
        }
    }

    /// Executable form of [`Self::code`].
    pub fn to_wire(&self) -> (r: u8)
        ensures
            r == self.code(),
    {
        match self {
            DnsOpcode::Query => 0,
            DnsOpcode::IQuery => 1,
            DnsOpcode::Status => 2,
            DnsOpcode::Zone => 4,
            DnsOpcode::Update => 5,
            DnsOpcode::DSO => 6,
        }
    }

    /// Executable registry lookup: the opcode registered under `n`, or
    /// `UnknownEnumValue` when `n` is unassigned.
    pub fn from_wire(n: u8) -> (r: Result<DnsOpcode, DecodeError>)
        ensures
            match Self::of_code(n) {
                Some(op) => r == Ok::<DnsOpcode, DecodeError>(op),
                None => r == Err::<DnsOpcode, DecodeError>(DecodeError::UnknownEnumValue),
            },
    {
        match n {
            0 => Ok(DnsOpcode::Query),
            1 => Ok(DnsOpcode::IQuery),
            2 => Ok(DnsOpcode::Status),
            4 => Ok(DnsOpcode::Zone),
            5 => Ok(DnsOpcode::Update),
            6 => Ok(DnsOpcode::DSO),
            _ => Err(DecodeError::UnknownEnumValue),
        }
    }
}

/// Looking an opcode's own wire value up in the registry finds exactly that
/// opcode, and the value fits the 4-bit header field.
pub proof fn lemma_opcode_code_round_trip(op: DnsOpcode)
    ensures
        DnsOpcode::of_code(op.code()) == Some(op),
        op.code() <= 15,
{
}

/// The outcome status of a response, a 4-bit header field.
#[derive(Clone, Copy, PartialEq, Eq, Structural, Debug)]
pub enum DnsRCode {
    /// 0: no error
    NoError,
    /// 1: format error - the nameserver could not interpret the query
    FormError,
    /// 2: server failure - the nameserver could not process the query
    ServFail,
    /// 3: name error - the domain does not exist
    NXDomain,
    /// 4: not implemented - the requested operation is unsupported
    NotImp,
    /// 5: refused - the nameserver declined for an unspecified reason
    Refused,
    /// 6: a name exists when it should not (RFC 2136)
    YXDomain,
    /// 7: a resource-record set exists when it should not (RFC 2136)
    YXRRSet,
    /// 8: a resource-record set that should exist does not (RFC 2136)
    NXRRSet,
    /// 9: the server is not authoritative for the zone (RFC 2136)
    NotAuth,
    /// 10: a name is not contained in the zone (RFC 2136)
    NotZone,
    /// 11: DSO-TYPE not implemented (RFC 8490)
    DSOTypeNI,
}

impl DnsRCode {
    /// The wire value of this response code; always at most 15, as the
    /// field is four bits wide.
    pub open spec fn code(self) -> u8 {
        match self {
            DnsRCode::NoError => 0,
            DnsRCode::FormError => 1,
            DnsRCode::ServFail => 2,
            DnsRCode::NXDomain => 3,
            DnsRCode::NotImp => 4,
            DnsRCode::Refused => 5,
            DnsRCode::YXDomain => 6,
            DnsRCode::YXRRSet => 7,
            DnsRCode::NXRRSet => 8,
            DnsRCode::NotAuth => 9,
            DnsRCode::NotZone => 10,
            DnsRCode::DSOTypeNI => 11,
        }
    }

    /// The response code registered under wire value `n`, if any.
    pub open spec fn of_code(n: u8) -> Option<DnsRCode> {
        match n {
            0 => Some(DnsRCode::NoError),
            1 => Some(DnsRCode::FormError),
            2 => Some(DnsRCode::ServFail),
            3 => Some(DnsRCode::NXDomain),
            4 => Some(DnsRCode::NotImp),
            5 => Some(DnsRCode::Refused),
            6 => Some(DnsRCode::YXDomain),
            7 => Some(DnsRCode::YXRRSet),
            8 => Some(DnsRCode::NXRRSet),
            9 => Some(DnsRCode::NotAuth),
            10 => Some(DnsRCode::NotZone),
            11 => Some(DnsRCode::DSOTypeNI),
            _ => None,
        }
    }

    /// Executable form of [`Self::code`].
    pub fn to_wire(&self) -> (r: u8)
        ensures
            r == self.code(),
    {
        match self {
            DnsRCode::NoError => 0,
            DnsRCode::FormError => 1,
            DnsRCode::ServFail => 2,
            DnsRCode::NXDomain => 3,
            DnsRCode::NotImp => 4,
            DnsRCode::Refused => 5,
            DnsRCode::YXDomain => 6,
            DnsRCode::YXRRSet => 7,
            DnsRCode::NXRRSet => 8,
            DnsRCode::NotAuth => 9,
            DnsRCode::NotZone => 10,
            DnsRCode::DSOTypeNI => 11,
        }
    }

    /// Executable registry lookup: the response code registered under `n`,
    /// or `UnknownEnumValue` when `n` is unassigned.
    pub fn from_wire(n: u8) -> (r: Result<DnsRCode, DecodeError>)
        ensures
            match Self::of_code(n) {
                Some(rc) => r == Ok::<DnsRCode, DecodeError>(rc),
                None => r == Err::<DnsRCode, DecodeError>(DecodeError::UnknownEnumValue),
            },
    {
        match n {
            0 => Ok(DnsRCode::NoError),
            1 => Ok(DnsRCode::FormError),
            2 => Ok(DnsRCode::ServFail),
            3 => Ok(DnsRCode::NXDomain),
            4 => Ok(DnsRCode::NotImp),
            5 => Ok(DnsRCode::Refused),
            6 => Ok(DnsRCode::YXDomain),
            7 => Ok(DnsRCode::YXRRSet),
            8 => Ok(DnsRCode::NXRRSet),
            9 => Ok(DnsRCode::NotAuth),
            10 => Ok(DnsRCode::NotZone),
            11 => Ok(DnsRCode::DSOTypeNI),
            _ => Err(DecodeError::UnknownEnumValue),
        }
    }
}

/// Looking a response code's own wire value up in the registry finds
/// exactly that code, and the value fits the 4-bit header field.
pub proof fn lemma_rcode_code_round_trip(rc: DnsRCode)
    ensures
        DnsRCode::of_code(rc.code()) == Some(rc),
        rc.code() <= 15,
{
}

/// The class of a record or question, nearly always `IN` in practice.
#[derive(Clone, Copy, PartialEq, Eq, Structural, Debug)]
pub enum DnsClass {
    /// 1: INternet
    IN,
    /// 2: CSnet, obsolete before the DNS standard was even published
    CS,
    /// 3: CHaos
    CH,
    /// 4: HeSiod
    HS,
    /// 254: NONE, distinguishes nonexistent record sets from empty ones in
    /// Update operations (RFC 2136)
    NONE,
    /// 255: ANY, only valid in queries
    ANY,
}

impl DnsClass {
    /// The 16-bit wire value of this class.
    pub open spec fn code(self) -> u16 {
        match self {
            DnsClass::IN => 1,
            DnsClass::CS => 2,
            DnsClass::CH => 3,
            DnsClass::HS => 4,
            DnsClass::NONE => 254,
            DnsClass::ANY => 255,
        }
    }

    /// The class registered under wire value `n`, if any.
    pub open spec fn of_code(n: u16) -> Option<DnsClass> {
        match n {
            1 => Some(DnsClass::IN),
            2 => Some(DnsClass::CS),
            3 => Some(DnsClass::CH),
            4 => Some(DnsClass::HS),
            254 => Some(DnsClass::NONE),
            255 => Some(DnsClass::ANY),
            _ => None,
        }
    }

    /// Executable form of [`Self::code`].
    pub fn to_wire(&self) -> (r: u16)
        ensures
            r == self.code(),
    {
        match self {
            DnsClass::IN => 1,
            DnsClass::CS => 2,
            DnsClass::CH => 3,
            DnsClass::HS => 4,
            DnsClass::NONE => 254,
            DnsClass::ANY => 255,
        }
    }

    /// Executable registry lookup: the class registered under `n`, or
    /// `UnknownEnumValue` when `n` is unassigned.
    pub fn from_wire(n: u16) -> (r: Result<DnsClass, DecodeError>)
        ensures
            match Self::of_code(n) {
                Some(c) => r == Ok::<DnsClass, DecodeError>(c),
                None => r == Err::<DnsClass, DecodeError>(DecodeError::UnknownEnumValue),
            },
    {
        match n {
            1 => Ok(DnsClass::IN),
            2 => Ok(DnsClass::CS),
            3 => Ok(DnsClass::CH),
            4 => Ok(DnsClass::HS),
            254 => Ok(DnsClass::NONE),
            255 => Ok(DnsClass::ANY),
            _ => Err(DecodeError::UnknownEnumValue),
        }
    }
}

/// Looking a class's own wire value up in the registry finds exactly that
/// class.
pub proof fn lemma_class_code_round_trip(c: DnsClass)
    ensures
        DnsClass::of_code(c.code()) == Some(c),
{
}

/// The type of a resource record or of the records a question asks for.
/// Query-only pseudo-types such as `ANY` belong to the same 16-bit domain.
#[derive(Clone, Copy, PartialEq, Eq, Structural, Debug)]
pub enum DnsRRType {
    /// 1
    A,
    /// 2
    NS,
    /// 3
    MD,
    /// 4
    MF,
    /// 5
    CNAME,
    /// 6
    SOA,
    /// 7
    MB,
    /// 8
    MG,
    /// 9
    MR,
    /// 10
    NULL,
    /// 11
    WKS,
    /// 12
    PTR,
    /// 13
    HINFO,
    /// 14
    MINFO,
    /// 15
    MX,
    /// 16
    TXT,
    /// 17
    RP,
    /// 18
    AFSDB,
    /// 19
    X25,
    /// 20
    ISDN,
    /// 21
    RT,
    /// 22
    NSAP,
    /// 23
    NSAPPTR,
    /// 24
    SIG,
    /// 25
    KEY,
    /// 26
    PX,
    /// 27
    GPOS,
    /// 28
    AAAA,
    /// 29
    LOC,
    /// 30
    NXT,
    /// 31
    EID,
    /// 32
    NIMLOC,
    /// 33
    SRV,
    /// 34
    ATMA,
    /// 35
    NAPTR,
    /// 36
    KX,
    /// 37
    CERT,
    /// 38
    A6,
    /// 39
    DNAME,
    /// 40
    SINK,
    /// 41
    OPT,
    /// 42
    APL,
    /// 43
    DS,
    /// 44
    SSHFP,
    /// 45
    IPSECKEY,
    /// 46
    RRSIG,
    /// 47
    NSEC,
    /// 48
    DNSKEY,
    /// 49
    DHCID,
    /// 50
    NSEC3,
    /// 51
    NSEC3PARAM,
    /// 52
    TLSA,
    /// 53
    SMIMEA,
    /// 55
    HIP,
    /// 56
    NINFO,
    /// 57
    RKEY,
    /// 58
    TALINK,
    /// 59
    CDS,
    /// 60
    CDNSKEY,
    /// 61
    OPENPGPKEY,
    /// 62
    CSYNC,
    /// 63
    ZONEMD,
    /// 99
    SPF,
    /// 100
    UINFO,
    /// 101
    UID,
    /// 102
    GID,
    /// 103
    UNSPEC,
    /// 104
    NID,
    /// 105
    L32,
    /// 106
    L64,
    /// 107
    LP,
    /// 108
    EUI4,
    /// 109
    EUI64,
    /// 249
    TKEY,
    /// 250
    TSIG,
    /// 251
    IXFR,
    /// 252
    AXF,
    /// 253
    MAILB,
    /// 254
    MAILA,
    /// 255
    ANY,
    /// 256
    URI,
    /// 257
    CAA,
    /// 258
    AVC,
    /// 259
    DOA,
    /// 260
    AMTRELAY,
    /// 32768
    TA,
    /// 32769
    DLV,
}

impl DnsRRType {
    /// The 16-bit wire value of this record type.
    pub open spec fn code(self) -> u16 {
        match self {
            DnsRRType::A => 1,
            DnsRRType::NS => 2,
            DnsRRType::MD => 3,
            DnsRRType::MF => 4,
            DnsRRType::CNAME => 5,
            DnsRRType::SOA => 6,
            DnsRRType::MB => 7,
            DnsRRType::MG => 8,
            DnsRRType::MR => 9,
            DnsRRType::NULL => 10,
            DnsRRType::WKS => 11,
            DnsRRType::PTR => 12,
            DnsRRType::HINFO => 13,
            DnsRRType::MINFO => 14,
            DnsRRType::MX => 15,
            DnsRRType::TXT => 16,
            DnsRRType::RP => 17,
            DnsRRType::AFSDB => 18,
            DnsRRType::X25 => 19,
            DnsRRType::ISDN => 20,
            DnsRRType::RT => 21,
            DnsRRType::NSAP => 22,
            DnsRRType::NSAPPTR => 23,
            DnsRRType::SIG => 24,
            DnsRRType::KEY => 25,
            DnsRRType::PX => 26,
            DnsRRType::GPOS => 27,
            DnsRRType::AAAA => 28,
            DnsRRType::LOC => 29,
            DnsRRType::NXT => 30,
            DnsRRType::EID => 31,
            DnsRRType::NIMLOC => 32,
            DnsRRType::SRV => 33,
            DnsRRType::ATMA => 34,
            DnsRRType::NAPTR => 35,
            DnsRRType::KX => 36,
            DnsRRType::CERT => 37,
            DnsRRType::A6 => 38,
            DnsRRType::DNAME => 39,
            DnsRRType::SINK => 40,
            DnsRRType::OPT => 41,
            DnsRRType::APL => 42,
            DnsRRType::DS => 43,
            DnsRRType::SSHFP => 44,
            DnsRRType::IPSECKEY => 45,
            DnsRRType::RRSIG => 46,
            DnsRRType::NSEC => 47,
            DnsRRType::DNSKEY => 48,
            DnsRRType::DHCID => 49,
            DnsRRType::NSEC3 => 50,
            DnsRRType::NSEC3PARAM => 51,
            DnsRRType::TLSA => 52,
            DnsRRType::SMIMEA => 53,
            DnsRRType::HIP => 55,
            DnsRRType::NINFO => 56,
            DnsRRType::RKEY => 57,
            DnsRRType::TALINK => 58,
            DnsRRType::CDS => 59,
            DnsRRType::CDNSKEY => 60,
            DnsRRType::OPENPGPKEY => 61,
            DnsRRType::CSYNC => 62,
            DnsRRType::ZONEMD => 63,
            DnsRRType::SPF => 99,
            DnsRRType::UINFO => 100,
            DnsRRType::UID => 101,
            DnsRRType::GID => 102,
            DnsRRType::UNSPEC => 103,
            DnsRRType::NID => 104,
            DnsRRType::L32 => 105,
            DnsRRType::L64 => 106,
            DnsRRType::LP => 107,
            DnsRRType::EUI4 => 108,
            DnsRRType::EUI64 => 109,
            DnsRRType::TKEY => 249,
            DnsRRType::TSIG => 250,
            DnsRRType::IXFR => 251,
            DnsRRType::AXF => 252,
            DnsRRType::MAILB => 253,
            DnsRRType::MAILA => 254,
            DnsRRType::ANY => 255,
            DnsRRType::URI => 256,
            DnsRRType::CAA => 257,
            DnsRRType::AVC => 258,
            DnsRRType::DOA => 259,
            DnsRRType::AMTRELAY => 260,
            DnsRRType::TA => 32768,
            DnsRRType::DLV => 32769,
        }
    }

    /// The record type registered under wire value `n`, if any.
    pub open spec fn of_code(n: u16) -> Option<DnsRRType> {
        match n {
            1 => Some(DnsRRType::A),
            2 => Some(DnsRRType::NS),
            3 => Some(DnsRRType::MD),
            4 => Some(DnsRRType::MF),
            5 => Some(DnsRRType::CNAME),
            6 => Some(DnsRRType::SOA),
            7 => Some(DnsRRType::MB),
            8 => Some(DnsRRType::MG),
            9 => Some(DnsRRType::MR),
            10 => Some(DnsRRType::NULL),
            11 => Some(DnsRRType::WKS),
            12 => Some(DnsRRType::PTR),
            13 => Some(DnsRRType::HINFO),
            14 => Some(DnsRRType::MINFO),
            15 => Some(DnsRRType::MX),
            16 => Some(DnsRRType::TXT),
            17 => Some(DnsRRType::RP),
            18 => Some(DnsRRType::AFSDB),
            19 => Some(DnsRRType::X25),
            20 => Some(DnsRRType::ISDN),
            21 => Some(DnsRRType::RT),
            22 => Some(DnsRRType::NSAP),
            23 => Some(DnsRRType::NSAPPTR),
            24 => Some(DnsRRType::SIG),
            25 => Some(DnsRRType::KEY),
            26 => Some(DnsRRType::PX),
            27 => Some(DnsRRType::GPOS),
            28 => Some(DnsRRType::AAAA),
            29 => Some(DnsRRType::LOC),
            30 => Some(DnsRRType::NXT),
            31 => Some(DnsRRType::EID),
            32 => Some(DnsRRType::NIMLOC),
            33 => Some(DnsRRType::SRV),
            34 => Some(DnsRRType::ATMA),
            35 => Some(DnsRRType::NAPTR),
            36 => Some(DnsRRType::KX),
            37 => Some(DnsRRType::CERT),
            38 => Some(DnsRRType::A6),
            39 => Some(DnsRRType::DNAME),
            40 => Some(DnsRRType::SINK),
            41 => Some(DnsRRType::OPT),
            42 => Some(DnsRRType::APL),
            43 => Some(DnsRRType::DS),
            44 => Some(DnsRRType::SSHFP),
            45 => Some(DnsRRType::IPSECKEY),
            46 => Some(DnsRRType::RRSIG),
            47 => Some(DnsRRType::NSEC),
            48 => Some(DnsRRType::DNSKEY),
            49 => Some(DnsRRType::DHCID),
            50 => Some(DnsRRType::NSEC3),
            51 => Some(DnsRRType::NSEC3PARAM),
            52 => Some(DnsRRType::TLSA),
            53 => Some(DnsRRType::SMIMEA),
            55 => Some(DnsRRType::HIP),
            56 => Some(DnsRRType::NINFO),
            57 => Some(DnsRRType::RKEY),
            58 => Some(DnsRRType::TALINK),
            59 => Some(DnsRRType::CDS),
            60 => Some(DnsRRType::CDNSKEY),
            61 => Some(DnsRRType::OPENPGPKEY),
            62 => Some(DnsRRType::CSYNC),
            63 => Some(DnsRRType::ZONEMD),
            99 => Some(DnsRRType::SPF),
            100 => Some(DnsRRType::UINFO),
            101 => Some(DnsRRType::UID),
            102 => Some(DnsRRType::GID),
            103 => Some(DnsRRType::UNSPEC),
            104 => Some(DnsRRType::NID),
            105 => Some(DnsRRType::L32),
            106 => Some(DnsRRType::L64),
            107 => Some(DnsRRType::LP),
            108 => Some(DnsRRType::EUI4),
            109 => Some(DnsRRType::EUI64),
            249 => Some(DnsRRType::TKEY),
            250 => Some(DnsRRType::TSIG),
            251 => Some(DnsRRType::IXFR),
            252 => Some(DnsRRType::AXF),
            253 => Some(DnsRRType::MAILB),
            254 => Some(DnsRRType::MAILA),
            255 => Some(DnsRRType::ANY),
            256 => Some(DnsRRType::URI),
            257 => Some(DnsRRType::CAA),
            258 => Some(DnsRRType::AVC),
            259 => Some(DnsRRType::DOA),
            260 => Some(DnsRRType::AMTRELAY),
            32768 => Some(DnsRRType::TA),
            32769 => Some(DnsRRType::DLV),
            _ => None,
        }
    }

    /// Executable form of [`Self::code`].
    pub fn to_wire(&self) -> (r: u16)
        ensures
            r == self.code(),
    {
        match self {
            DnsRRType::A => 1,
            DnsRRType::NS => 2,
            DnsRRType::MD => 3,
            DnsRRType::MF => 4,
            DnsRRType::CNAME => 5,
            DnsRRType::SOA => 6,
            DnsRRType::MB => 7,
            DnsRRType::MG => 8,
            DnsRRType::MR => 9,
            DnsRRType::NULL => 10,
            DnsRRType::WKS => 11,
            DnsRRType::PTR => 12,
            DnsRRType::HINFO => 13,
            DnsRRType::MINFO => 14,
            DnsRRType::MX => 15,
            DnsRRType::TXT => 16,
            DnsRRType::RP => 17,
            DnsRRType::AFSDB => 18,
            DnsRRType::X25 => 19,
            DnsRRType::ISDN => 20,
            DnsRRType::RT => 21,
            DnsRRType::NSAP => 22,
            DnsRRType::NSAPPTR => 23,
            DnsRRType::SIG => 24,
            DnsRRType::KEY => 25,
            DnsRRType::PX => 26,
            DnsRRType::GPOS => 27,
            DnsRRType::AAAA => 28,
            DnsRRType::LOC => 29,
            DnsRRType::NXT => 30,
            DnsRRType::EID => 31,
            DnsRRType::NIMLOC => 32,
            DnsRRType::SRV => 33,
            DnsRRType::ATMA => 34,
            DnsRRType::NAPTR => 35,
            DnsRRType::KX => 36,
            DnsRRType::CERT => 37,
            DnsRRType::A6 => 38,
            DnsRRType::DNAME => 39,
            DnsRRType::SINK => 40,
            DnsRRType::OPT => 41,
            DnsRRType::APL => 42,
            DnsRRType::DS => 43,
            DnsRRType::SSHFP => 44,
            DnsRRType::IPSECKEY => 45,
            DnsRRType::RRSIG => 46,
            DnsRRType::NSEC => 47,
            DnsRRType::DNSKEY => 48,
            DnsRRType::DHCID => 49,
            DnsRRType::NSEC3 => 50,
            DnsRRType::NSEC3PARAM => 51,
            DnsRRType::TLSA => 52,
            DnsRRType::SMIMEA => 53,
            DnsRRType::HIP => 55,
            DnsRRType::NINFO => 56,
            DnsRRType::RKEY => 57,
            DnsRRType::TALINK => 58,
            DnsRRType::CDS => 59,
            DnsRRType::CDNSKEY => 60,
            DnsRRType::OPENPGPKEY => 61,
            DnsRRType::CSYNC => 62,
            DnsRRType::ZONEMD => 63,
            DnsRRType::SPF => 99,
            DnsRRType::UINFO => 100,
            DnsRRType::UID => 101,
            DnsRRType::GID => 102,
            DnsRRType::UNSPEC => 103,
            DnsRRType::NID => 104,
            DnsRRType::L32 => 105,
            DnsRRType::L64 => 106,
            DnsRRType::LP => 107,
            DnsRRType::EUI4 => 108,
            DnsRRType::EUI64 => 109,
            DnsRRType::TKEY => 249,
            DnsRRType::TSIG => 250,
            DnsRRType::IXFR => 251,
            DnsRRType::AXF => 252,
            DnsRRType::MAILB => 253,
            DnsRRType::MAILA => 254,
            DnsRRType::ANY => 255,
            DnsRRType::URI => 256,
            DnsRRType::CAA => 257,
            DnsRRType::AVC => 258,
            DnsRRType::DOA => 259,
            DnsRRType::AMTRELAY => 260,
            DnsRRType::TA => 32768,
            DnsRRType::DLV => 32769,
        }
    }

    /// Executable registry lookup: the record type registered under `n`,
    /// or `UnknownEnumValue` when `n` is unassigned.
    pub fn from_wire(n: u16) -> (r: Result<DnsRRType, DecodeError>)
        ensures
            match Self::of_code(n) {
                Some(t) => r == Ok::<DnsRRType, DecodeError>(t),
                None => r == Err::<DnsRRType, DecodeError>(DecodeError::UnknownEnumValue),
            },
    {
        match n {
            1 => Ok(DnsRRType::A),
            2 => Ok(DnsRRType::NS),
            3 => Ok(DnsRRType::MD),
            4 => Ok(DnsRRType::MF),
            5 => Ok(DnsRRType::CNAME),
            6 => Ok(DnsRRType::SOA),
            7 => Ok(DnsRRType::MB),
            8 => Ok(DnsRRType::MG),
            9 => Ok(DnsRRType::MR),
            10 => Ok(DnsRRType::NULL),
            11 => Ok(DnsRRType::WKS),
            12 => Ok(DnsRRType::PTR),
            13 => Ok(DnsRRType::HINFO),
            14 => Ok(DnsRRType::MINFO),
            15 => Ok(DnsRRType::MX),
            16 => Ok(DnsRRType::TXT),
            17 => Ok(DnsRRType::RP),
            18 => Ok(DnsRRType::AFSDB),
            19 => Ok(DnsRRType::X25),
            20 => Ok(DnsRRType::ISDN),
            21 => Ok(DnsRRType::RT),
            22 => Ok(DnsRRType::NSAP),
            23 => Ok(DnsRRType::NSAPPTR),
            24 => Ok(DnsRRType::SIG),
            25 => Ok(DnsRRType::KEY),
            26 => Ok(DnsRRType::PX),
            27 => Ok(DnsRRType::GPOS),
            28 => Ok(DnsRRType::AAAA),
            29 => Ok(DnsRRType::LOC),
            30 => Ok(DnsRRType::NXT),
            31 => Ok(DnsRRType::EID),
            32 => Ok(DnsRRType::NIMLOC),
            33 => Ok(DnsRRType::SRV),
            34 => Ok(DnsRRType::ATMA),
            35 => Ok(DnsRRType::NAPTR),
            36 => Ok(DnsRRType::KX),
            37 => Ok(DnsRRType::CERT),
            38 => Ok(DnsRRType::A6),
            39 => Ok(DnsRRType::DNAME),
            40 => Ok(DnsRRType::SINK),
            41 => Ok(DnsRRType::OPT),
            42 => Ok(DnsRRType::APL),
            43 => Ok(DnsRRType::DS),
            44 => Ok(DnsRRType::SSHFP),
            45 => Ok(DnsRRType::IPSECKEY),
            46 => Ok(DnsRRType::RRSIG),
            47 => Ok(DnsRRType::NSEC),
            48 => Ok(DnsRRType::DNSKEY),
            49 => Ok(DnsRRType::DHCID),
            50 => Ok(DnsRRType::NSEC3),
            51 => Ok(DnsRRType::NSEC3PARAM),
            52 => Ok(DnsRRType::TLSA),
            53 => Ok(DnsRRType::SMIMEA),
            55 => Ok(DnsRRType::HIP),
            56 => Ok(DnsRRType::NINFO),
            57 => Ok(DnsRRType::RKEY),
            58 => Ok(DnsRRType::TALINK),
            59 => Ok(DnsRRType::CDS),
            60 => Ok(DnsRRType::CDNSKEY),
            61 => Ok(DnsRRType::OPENPGPKEY),
            62 => Ok(DnsRRType::CSYNC),
            63 => Ok(DnsRRType::ZONEMD),
            99 => Ok(DnsRRType::SPF),
            100 => Ok(DnsRRType::UINFO),
            101 => Ok(DnsRRType::UID),
            102 => Ok(DnsRRType::GID),
            103 => Ok(DnsRRType::UNSPEC),
            104 => Ok(DnsRRType::NID),
            105 => Ok(DnsRRType::L32),
            106 => Ok(DnsRRType::L64),
            107 => Ok(DnsRRType::LP),
            108 => Ok(DnsRRType::EUI4),
            109 => Ok(DnsRRType::EUI64),
            249 => Ok(DnsRRType::TKEY),
            250 => Ok(DnsRRType::TSIG),
            251 => Ok(DnsRRType::IXFR),
            252 => Ok(DnsRRType::AXF),
            253 => Ok(DnsRRType::MAILB),
            254 => Ok(DnsRRType::MAILA),
            255 => Ok(DnsRRType::ANY),
            256 => Ok(DnsRRType::URI),
            257 => Ok(DnsRRType::CAA),
            258 => Ok(DnsRRType::AVC),
            259 => Ok(DnsRRType::DOA),
            260 => Ok(DnsRRType::AMTRELAY),
            32768 => Ok(DnsRRType::TA),
            32769 => Ok(DnsRRType::DLV),
            _ => Err(DecodeError::UnknownEnumValue),
        }
    }
}

/// Looking a record type's own wire value up in the registry finds exactly
/// that type.
pub proof fn lemma_rr_type_code_round_trip(t: DnsRRType)
    ensures
        DnsRRType::of_code(t.code()) == Some(t),
{
}


} // verus!
