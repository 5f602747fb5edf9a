//! Domain-name codec: length-prefixed labels terminated by the root label,
//! with decode-side support for RFC 1035 compression pointers.
//!
//! A pointer may only target a strictly smaller offset than its own control
//! octet, and at most `MAX_POINTER_HOPS` pointers are followed for one
//! name, so decoding is proved to terminate on every buffer — a cyclic or
//! self-referential pointer chain yields `PointerLoopOrOverflow`, never an
//! unbounded loop.

use vstd::prelude::*;
use vstd::slice::slice_subrange;
use vstd::slice::slice_to_vec;

use crate::error::DecodeError;

verus! {

/// Upper bound on the compression pointers followed while decoding one
/// name. Any bound guarantees termination; this one is far above what a
/// legitimate message can need, since each hop costs two bytes of buffer.
pub const MAX_POINTER_HOPS: u8 = 64;

/// A label must carry 1 to 63 bytes: 0 is the root terminator and values
/// from 64 up collide with the pointer and reserved control ranges.
pub open spec fn label_len_ok(label: Seq<u8>) -> bool {
    1 <= label.len() <= 63
}

/// The label portion of a name's uncompressed encoding: each label behind
/// its one-byte length, without the final root terminator.
pub open spec fn spec_labels_bytes(labels: Seq<Seq<u8>>) -> Seq<u8>
    decreases labels.len(),
{
    if labels.len() == 0 {
        Seq::empty()
    } else {
        seq![labels[0].len() as u8] + labels[0] + spec_labels_bytes(labels.drop_first())
    }
}

/// Total wire length of a name's uncompressed encoding: length octets,
/// label bytes, and the root terminator.
pub open spec fn spec_name_wire_len(labels: Seq<Seq<u8>>) -> int {
    spec_labels_bytes(labels).len() as int + 1
}

/// A name fit for the wire: every label within 1-63 bytes and the whole
/// encoding within 255 bytes.
pub open spec fn spec_name_valid(labels: Seq<Seq<u8>>) -> bool {
    &&& forall|i: int| 0 <= i < labels.len() ==> label_len_ok(#[trigger] labels[i])
    &&& spec_name_wire_len(labels) <= 255
}

/// The uncompressed encoding of a name: its labels followed by the root
/// terminator. Encoding never emits compression pointers.
pub open spec fn spec_encode_name(labels: Seq<Seq<u8>>) -> Seq<u8> {
    spec_labels_bytes(labels) + seq![0u8]
}

/// One step of name decoding at offset `pos` of `buf`.
///
/// `hops` is the remaining pointer budget and `used` the uncompressed
/// bytes accumulated so far, which may not pass 254 (the terminator brings
/// the total to at most 255). The returned offset is where the caller
/// resumes reading: just past the terminator, or just past the first
/// pointer when one was followed.
pub open spec fn spec_decode_name_from(buf: Seq<u8>, pos: int, hops: int, used: int) -> Result<
    (Seq<Seq<u8>>, int),
    DecodeError,
>
    decreases hops, buf.len() - pos,
{
    if !(0 <= pos < buf.len()) {
        Err(DecodeError::TruncatedInput)
    } else {
        let c = buf[pos];
        if c == 0 {
            Ok((Seq::empty(), pos + 1))
        } else if c < 64 {
            if pos + 1 + c > buf.len() {
                Err(DecodeError::TruncatedInput)
            } else if used + 1 + c > 254 {
                Err(DecodeError::InvalidNameEncoding)
            } else {
                match spec_decode_name_from(buf, pos + 1 + c, hops, used + 1 + c) {
                    Ok(rest) => Ok(
                        (seq![buf.subrange(pos + 1, pos + 1 + c)] + rest.0, rest.1),
                    ),
                    Err(e) => Err(e),
                }
            }
        } else if c >= 0xC0 {
            if pos + 1 >= buf.len() {
                Err(DecodeError::TruncatedInput)
            } else {
                let target = (c - 0xC0) * 256 + buf[pos + 1];
                if hops <= 0 || target >= pos {
                    Err(DecodeError::PointerLoopOrOverflow)
                } else {
                    match spec_decode_name_from(buf, target, hops - 1, used) {
                        Ok(rest) => Ok((rest.0, pos + 2)),
                        Err(e) => Err(e),
                    }
                }
            }
        } else {
            Err(DecodeError::InvalidNameEncoding)
        }
    }
}

/// Name decoding as the rest of the codec sees it: full pointer budget,
/// nothing accumulated yet.
pub open spec fn spec_decode_name(buf: Seq<u8>, pos: int) -> Result<
    (Seq<Seq<u8>>, int),
    DecodeError,
> {
    spec_decode_name_from(buf, pos, MAX_POINTER_HOPS as int, 0)
}

/// How an executable decode outcome corresponds to a specification-level
/// one: same error, or same labels and same resume offset.
pub open spec fn name_result_matches(
    r: Result<(Vec<Vec<u8>>, usize), DecodeError>,
    s: Result<(Seq<Seq<u8>>, int), DecodeError>,
) -> bool {
    match (r, s) {
        (Ok(rv), Ok(sv)) => rv.0.deep_view() == sv.0 && rv.1 as int == sv.1,
        (Err(e), Err(se)) => e == se,
        _ => false,
    }
}

/// Executable mirror of [`spec_decode_name_from`].
fn decode_name_from(buf: &[u8], pos: usize, hops: u8, used: u16) -> (r: Result<
    (Vec<Vec<u8>>, usize),
    DecodeError,
>)
    requires
        used <= 254,
    ensures
        name_result_matches(r, spec_decode_name_from(buf@, pos as int, hops as int, used as int)),
    decreases hops as int, buf@.len() - pos as int,
{
    if pos >= buf.len() {
        return Err(DecodeError::TruncatedInput);
    }
    let c: u8 = buf[pos];
    if c == 0 {
        let labels: Vec<Vec<u8>> = Vec::new();
        proof {
            assert(labels.deep_view() =~= Seq::<Seq<u8>>::empty());
        }
        Ok((labels, pos + 1))
    } else if c < 64 {
        let clen: usize = c as usize;
        if clen > buf.len() - (pos + 1) {
            return Err(DecodeError::TruncatedInput);
        }
        if (used as usize) + 1 + clen > 254 {
            return Err(DecodeError::InvalidNameEncoding);
        }
        let label: Vec<u8> = slice_to_vec(slice_subrange(buf, pos + 1, pos + 1 + clen));
        match decode_name_from(buf, pos + 1 + clen, hops, used + 1 + (c as u16)) {
            Ok((mut labels, end)) => {
                let ghost tail = labels.deep_view();
                labels.insert(0, label);
                proof {
                    assert(labels.deep_view() =~~= seq![label@] + tail);
                }
                Ok((labels, end))
            },
            Err(e) => Err(e),
        }
    } else if c >= 0xC0 {
        if buf.len() - pos < 2 {
            return Err(DecodeError::TruncatedInput);
        }
        let target: usize = ((c - 0xC0) as usize) * 256 + (buf[pos + 1] as usize);
        if hops == 0 || target >= pos {
            Err(DecodeError::PointerLoopOrOverflow)
        } else {
            match decode_name_from(buf, target, hops - 1, used) {
                Ok((labels, _)) => Ok((labels, pos + 2)),
                Err(e) => Err(e),
            }
        }
    } else {
        Err(DecodeError::InvalidNameEncoding)
    }
}

/// Decode the name starting at offset `pos` of `buf`.
///
/// Returns the label sequence and the offset just past the name's encoding
/// — which is just past the first pointer when the name was compressed,
/// however many bytes its target spans.
pub fn deserialize_name(buf: &[u8], pos: usize) -> (r: Result<(Vec<Vec<u8>>, usize), DecodeError>)
    ensures
        name_result_matches(r, spec_decode_name(buf@, pos as int)),
{
    decode_name_from(buf, pos, MAX_POINTER_HOPS, 0)
}

/// Encode the name as its uncompressed wire form.
///
/// Fails with `LengthMismatch` when a label is empty or longer than 63
/// bytes, or when the whole encoding would pass 255 bytes.
pub fn serialize_name(labels: &Vec<Vec<u8>>) -> (r: Result<Vec<u8>, DecodeError>)
    ensures
        match r {
            Ok(bytes) => spec_name_valid(labels.deep_view()) && bytes@ == spec_encode_name(
                labels.deep_view(),
            ),
            Err(e) => !spec_name_valid(labels.deep_view()) && e == DecodeError::LengthMismatch,
        },
{
    let ghost all = labels.deep_view();
    let mut out: Vec<u8> = Vec::new();
    let mut i: usize = 0;
    while i < labels.len()
        invariant
            0 <= i <= labels.len(),
            all == labels.deep_view(),
            all.len() == labels@.len(),
            out@ == spec_labels_bytes(all.take(i as int)),
            out@.len() <= 254,
            forall|k: int| 0 <= k < i ==> label_len_ok(#[trigger] all[k]),
        decreases labels@.len() - i,
    {
        let label: &Vec<u8> = &labels[i];
        proof {
            assert(all[i as int] == label@);
        }
        if label.len() == 0 || label.len() > 63 {
            proof {
                assert(!label_len_ok(all[i as int]));
            }
            return Err(DecodeError::LengthMismatch);
        }
        if 254 - out.len() < 1 + label.len() {
            proof {
                lemma_labels_bytes_len_monotonic(all, i + 1);
                lemma_labels_bytes_take_snoc(all, i as int);
            }
            return Err(DecodeError::LengthMismatch);
        }
        out.push(label.len() as u8);
        let mut j: usize = 0;
        while j < label.len()
            invariant
                0 <= j <= label@.len(),
                out@ == spec_labels_bytes(all.take(i as int)) + seq![label@.len() as u8]
                    + label@.take(j as int),
                label@ == all[i as int],
                0 <= i < all.len(),
            decreases label@.len() - j,
        {
            out.push(label[j]);
            proof {
                assert(out@ =~= spec_labels_bytes(all.take(i as int)) + seq![label@.len() as u8]
                    + label@.take(j + 1));
            }
            j += 1;
        }
        proof {
            lemma_labels_bytes_take_snoc(all, i as int);
            assert(label@.take(label@.len() as int) =~= label@);
            assert(out@ =~= spec_labels_bytes(all.take(i + 1)));
        }
        i += 1;
    }
    proof {
        assert(all.take(all.len() as int) =~= all);
    }
    out.push(0);
    proof {
        assert(out@ =~= spec_encode_name(all));
    }
    Ok(out)
}

/// Appending one more label to a prefix extends its byte encoding by that
/// label's length octet and bytes.
proof fn lemma_labels_bytes_take_snoc(labels: Seq<Seq<u8>>, i: int)
    requires
        0 <= i < labels.len(),
    ensures
        spec_labels_bytes(labels.take(i + 1)) == spec_labels_bytes(labels.take(i)) + seq![
            labels[i].len() as u8,
        ] + labels[i],
    decreases i,
{
    let a = labels.take(i + 1);
    let b = labels.take(i);
    if i == 0 {
        assert(a.drop_first() =~= b);
        assert(spec_labels_bytes(b) =~= Seq::<u8>::empty());
        assert(spec_labels_bytes(a) =~= seq![labels[0].len() as u8] + labels[0]);
        assert(spec_labels_bytes(b) + seq![labels[0].len() as u8] + labels[0] =~= seq![
            labels[0].len() as u8,
        ] + labels[0]);
    } else {
        lemma_labels_bytes_take_snoc(labels.drop_first(), i - 1);
        assert(a.drop_first() =~= labels.drop_first().take(i));
        assert(b.drop_first() =~= labels.drop_first().take(i - 1));
        assert(a[0] == labels[0]);
        assert(labels.drop_first()[i - 1] == labels[i]);
        assert(spec_labels_bytes(a) == seq![labels[0].len() as u8] + labels[0]
            + spec_labels_bytes(labels.drop_first().take(i)));
        assert(spec_labels_bytes(a) =~= spec_labels_bytes(b) + seq![labels[i].len() as u8]
            + labels[i]);
    }
}

/// A prefix of a name never encodes to more bytes than the whole name.
proof fn lemma_labels_bytes_len_monotonic(labels: Seq<Seq<u8>>, i: int)
    requires
        0 <= i <= labels.len(),
    ensures
        spec_labels_bytes(labels.take(i)).len() <= spec_labels_bytes(labels).len(),
    decreases labels.len() - i,
{
    if i == labels.len() {
        assert(labels.take(i) =~= labels);
    } else {
        lemma_labels_bytes_take_snoc(labels, i);
        lemma_labels_bytes_len_monotonic(labels, i + 1);
    }
}

/// Raising the pointer budget never changes a decode that already
/// succeeds: the budget only decides how early a chain is cut off.
proof fn lemma_decode_hops_monotonic(buf: Seq<u8>, pos: int, hops1: int, hops2: int, used: int)
    requires
        0 <= hops1 <= hops2,
        spec_decode_name_from(buf, pos, hops1, used) is Ok,
    ensures
        spec_decode_name_from(buf, pos, hops2, used) == spec_decode_name_from(
            buf,
            pos,
            hops1,
            used,
        ),
    decreases hops1, buf.len() - pos,
{
    if 0 <= pos < buf.len() {
        let c = buf[pos];
        if c == 0 {
        } else if c < 64 {
            if pos + 1 + c <= buf.len() && used + 1 + c <= 254 {
                lemma_decode_hops_monotonic(buf, pos + 1 + c, hops1, hops2, used + 1 + c);
            }
        } else if c >= 0xC0 && pos + 1 < buf.len() {
            let target = (c - 0xC0) * 256 + buf[pos + 1];
            if hops1 > 0 && target < pos {
                lemma_decode_hops_monotonic(buf, target, hops1 - 1, hops2 - 1, used);
            }
        }
    }
}

/// Name compression behaves like substitution: when the two bytes at `b`
/// are a pointer targeting offset `a`, and the name at `a` decodes without
/// following any pointer itself, then decoding from `b` yields exactly the
/// labels found at `a`, and the caller's cursor advances by exactly two
/// bytes past the pointer.
pub proof fn lemma_pointer_compression(buf: Seq<u8>, a: int, b: int)
    requires
        0 <= a < b,
        b + 2 <= buf.len(),
        a <= 0x3fff,
        buf[b] == (0xC0 + a / 256) as u8,
        buf[b + 1] == (a % 256) as u8,
        spec_decode_name_from(buf, a, 0, 0) is Ok,
    ensures
        spec_decode_name(buf, b) matches Ok(r) && spec_decode_name_from(buf, a, 0, 0) matches
            Ok(t) && r.0 == t.0 && r.1 == b + 2,
{
    let c = buf[b];
    assert(c >= 0xC0 && (c - 0xC0) * 256 + buf[b + 1] == a) by {
        assert(0 <= a / 256 <= 63 && 0 <= a % 256 < 256) by (nonlinear_arith)
            requires
                0 <= a <= 0x3fff,
        ;
        vstd::arithmetic::div_mod::lemma_fundamental_div_mod(a, 256);
    };
    lemma_decode_hops_monotonic(buf, a, 0, MAX_POINTER_HOPS as int - 1, 0);
}

/// Decoding reads back exactly what encoding wrote: when the uncompressed
/// encoding of a valid name sits at offset `pos` of a buffer, decoding
/// from `pos` returns that name's labels and stops right after its
/// terminator, whatever else the buffer holds.
pub proof fn lemma_name_round_trip_at(
    buf: Seq<u8>,
    pos: int,
    labels: Seq<Seq<u8>>,
    hops: int,
    used: int,
)
    requires
        forall|i: int| 0 <= i < labels.len() ==> label_len_ok(#[trigger] labels[i]),
        0 <= used,
        used + spec_name_wire_len(labels) <= 255,
        0 <= hops,
        0 <= pos,
        pos + spec_name_wire_len(labels) <= buf.len(),
        buf.subrange(pos, pos + spec_name_wire_len(labels)) == spec_encode_name(labels),
    ensures
        spec_decode_name_from(buf, pos, hops, used) == Ok::<(Seq<Seq<u8>>, int), DecodeError>(
            (labels, pos + spec_name_wire_len(labels)),
        ),
    decreases labels.len(),
{
    let w = spec_name_wire_len(labels);
    let enc = spec_encode_name(labels);
    if labels.len() == 0 {
        assert(buf[pos] == enc[0]);
        assert(enc[0] == 0);
        assert(labels =~= Seq::<Seq<u8>>::empty());
        assert(spec_labels_bytes(labels) =~= Seq::<u8>::empty());
        assert(w == 1);
    } else {
        let head = labels[0];
        let c = head.len() as u8;
        let rest = labels.drop_first();
        let wr = spec_name_wire_len(rest);
        assert(enc == seq![c] + head + spec_encode_name(rest)) by {
            assert(spec_labels_bytes(labels) == seq![c] + head + spec_labels_bytes(rest));
            assert(seq![c] + head + spec_labels_bytes(rest) + seq![0u8] =~= seq![c] + head + (
            spec_labels_bytes(rest) + seq![0u8]));
        };
        assert(buf[pos] == enc[0]);
        assert(enc[0] == c);
        assert(1 <= c < 64);
        assert(pos + 1 + c <= buf.len());
        assert(used + 1 + c <= 254);
        assert(buf.subrange(pos + 1, pos + 1 + c as int) =~= head) by {
            assert forall|k: int| 0 <= k < c as int implies buf.subrange(
                pos + 1,
                pos + 1 + c as int,
            )[k] == head[k] by {
                assert(buf[pos + 1 + k] == enc[1 + k]);
                assert(enc[1 + k] == head[k]);
            }
        };
        assert(buf.subrange(pos + 1 + c as int, pos + 1 + c as int + wr) =~= spec_encode_name(
            rest,
        )) by {
            assert forall|k: int| 0 <= k < wr implies buf.subrange(
                pos + 1 + c as int,
                pos + 1 + c as int + wr,
            )[k] == spec_encode_name(rest)[k] by {
                assert(buf[pos + 1 + c as int + k] == enc[1 + c as int + k]);
                assert(enc[1 + c as int + k] == spec_encode_name(rest)[k]);
            }
        };
        lemma_name_round_trip_at(buf, pos + 1 + c as int, rest, hops, used + 1 + c as int);
        assert(seq![buf.subrange(pos + 1, pos + 1 + c as int)] + rest =~= labels);
        assert(w == 1 + c as int + wr) by {
            assert(spec_labels_bytes(labels) == seq![c] + head + spec_labels_bytes(rest));
        };
        assert(spec_decode_name_from(buf, pos + 1 + c as int, hops, used + 1 + c as int)
            == Ok::<(Seq<Seq<u8>>, int), DecodeError>((rest, pos + 1 + c as int + wr)));
        assert(spec_decode_name_from(buf, pos, hops, used) == Ok::<
            (Seq<Seq<u8>>, int),
            DecodeError,
        >((seq![buf.subrange(pos + 1, pos + 1 + c as int)] + rest, pos + 1 + c as int + wr)));
    }
}


/// A self-referential compression pointer — a pointer at offset `x`
/// whose target is `x` itself — is rejected as `PointerLoopOrOverflow`
/// the moment it is read: a pointer may only reach strictly backward.
pub proof fn lemma_self_pointer_rejected(buf: Seq<u8>, x: int)
    requires
        0 <= x,
        x + 2 <= buf.len(),
        x <= 0x3fff,
        buf[x] == (0xC0 + x / 256) as u8,
        buf[x + 1] == (x % 256) as u8,
    ensures
        spec_decode_name(buf, x) == Err::<(Seq<Seq<u8>>, int), DecodeError>(
            DecodeError::PointerLoopOrOverflow,
        ),
{
    let c = buf[x];
    assert(c >= 0xC0 && (c - 0xC0) * 256 + buf[x + 1] == x) by {
        assert(0 <= x / 256 <= 63 && 0 <= x % 256 < 256) by (nonlinear_arith)
            requires
                0 <= x <= 0x3fff,
        ;
        vstd::arithmetic::div_mod::lemma_fundamental_div_mod(x, 256);
    };
}

} // verus!
