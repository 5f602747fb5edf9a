//! The failure taxonomy shared by every codec layer.

use vstd::prelude::*;

verus! {

/// Why a decode (or a defensive encode-side check) failed.
///
/// Every codec function surfaces one of these to its immediate caller;
/// no layer substitutes a default value for malformed input.
#[derive(Clone, Copy, PartialEq, Eq, Structural, Debug)]
pub enum DecodeError {
    /// Fewer bytes remain in the buffer than a field, label, or payload
    /// declares it needs.
    TruncatedInput,
    /// An opcode, response-code, record-type or class wire value outside
    /// the domain of its closed registry.
    UnknownEnumValue,
    /// A label-length control octet in the reserved range 0x40-0xBF, or a
    /// name whose total encoded length exceeds 255 bytes.
    InvalidNameEncoding,
    /// A compression-pointer chain that points forward, at itself, or
    /// through more hops than the bounded limit allows.
    PointerLoopOrOverflow,
    /// A value under construction violates a length invariant before being
    /// serialized, such as a record whose declared length disagrees with
    /// its payload.
    LengthMismatch,
}

} // verus!
