//! Questions, resource records, and the full DNS packet.
//!
//! Decoding threads one cursor through the buffer: header, then exactly
//! as many questions and records as the header counts declare. Encoding
//! is the mirror, with the counts re-derived from the actual section
//! lengths so they can never disagree with the data.

use vstd::prelude::*;
use vstd::slice::slice_subrange;
use vstd::slice::slice_to_vec;

use crate::error::DecodeError;
use crate::flags::spec_flags_byte0;
use crate::flags::spec_flags_byte1;
use crate::flags::spec_flags_decode;
use crate::flags::DnsFlags;
use crate::name::deserialize_name;
use crate::name::MAX_POINTER_HOPS;
use crate::name::serialize_name;
use crate::name::spec_decode_name;
use crate::name::spec_encode_name;
use crate::name::spec_name_valid;
use crate::name::spec_name_wire_len;
use crate::registry::DnsClass;
use crate::registry::DnsRRType;
use crate::wire::be16_bytes;
use crate::wire::be16_val;
use crate::wire::be32_bytes;
use crate::wire::be32_val;
use crate::wire::big_endian_bytes_to_u16;
use crate::wire::big_endian_bytes_to_u32;
use crate::wire::put_u16;
use crate::wire::put_u32;

verus! {

/// One entry of the question section: the name asked about, the record
/// type wanted, and the class wanted.
#[derive(Clone, PartialEq, Debug)]
pub struct DnsQuestion {
    /// The queried name as its ordered labels, root label not stored:
    /// `blog.example.com.` is the three labels `blog`, `example`, `com`.
    pub qname: Vec<Vec<u8>>,
    /// The type of records desired. Query-only pseudo-types such as `ANY`
    /// are admitted here though no actual record carries them.
    pub qtype: DnsRRType,
    /// The class of records desired, nearly always `IN`.
    pub qclass: DnsClass,
}

/// The class field of a resource record.
///
/// For every ordinary record this is a registered class. An `OPT` pseudo
/// record (RFC 6891) repurposes the same 16 bits as the sender's UDP
/// payload size, so for it the raw number is kept instead; which reading
/// applies is decided by the record's type before the field is
/// interpreted.
#[derive(Clone, Copy, PartialEq, Eq, Structural, Debug)]
pub enum RecordClass {
    /// The class field of an ordinary record, through the class registry.
    Known(DnsClass),
    /// The class field of an `OPT` record: a UDP payload size, not a
    /// class at all.
    OptPayloadSize(u16),
}

/// One resource record of the answer, authority, or additional section.
#[derive(Clone, PartialEq, Debug)]
pub struct DnsResourceRecord {
    /// The name the record belongs to, stored like a question's name.
    pub name: Vec<Vec<u8>>,
    /// The record type.
    pub rr_type: DnsRRType,
    /// The class field, read as [`RecordClass`] explains.
    pub class: RecordClass,
    /// Seconds the record may be cached; 0 means do not cache.
    pub ttl: u32,
    /// Declared length of the record data; the invariant kept by both
    /// codec directions is that it equals `record.len()`.
    pub rd_length: u16,
    /// The record data, kept as an opaque byte span and never interpreted
    /// by this codec.
    pub record: Vec<u8>,
}

/// A whole DNS message.
///
/// The wire counts of the four sections are not stored: they are derived
/// from the section lengths on encode, which removes any chance of the
/// two drifting apart.
#[derive(Clone, PartialEq, Debug)]
pub struct DnsPacket {
    /// Transaction ID: arbitrary on a query, echoed in the response so a
    /// client can pair replies with requests.
    pub id: u16,
    /// The bit-packed header flags.
    pub flags: DnsFlags,
    /// The question section.
    pub questions: Vec<DnsQuestion>,
    /// The answer section.
    pub answers: Vec<DnsResourceRecord>,
    /// The authority section.
    pub nameservers: Vec<DnsResourceRecord>,
    /// The additional section.
    pub addl_recs: Vec<DnsResourceRecord>,
}

/// The mathematical shadow of a [`DnsQuestion`].
#[verifier::ext_equal]
pub struct QuestionModel {
    /// The labels of the queried name.
    pub qname: Seq<Seq<u8>>,
    /// The type of records desired.
    pub qtype: DnsRRType,
    /// The class of records desired.
    pub qclass: DnsClass,
}

/// The mathematical shadow of a [`DnsResourceRecord`].
#[verifier::ext_equal]
pub struct RecordModel {
    /// The labels of the record's name.
    pub name: Seq<Seq<u8>>,
    /// The record type.
    pub rr_type: DnsRRType,
    /// The class field.
    pub class: RecordClass,
    /// Cache lifetime in seconds.
    pub ttl: u32,
    /// Declared record-data length.
    pub rd_length: u16,
    /// The record data bytes.
    pub record: Seq<u8>,
}

/// The mathematical shadow of a [`DnsPacket`].
#[verifier::ext_equal]
pub struct PacketModel {
    /// Transaction ID.
    pub id: u16,
    /// The header flags.
    pub flags: DnsFlags,
    /// The question section.
    pub questions: Seq<QuestionModel>,
    /// The answer section.
    pub answers: Seq<RecordModel>,
    /// The authority section.
    pub nameservers: Seq<RecordModel>,
    /// The additional section.
    pub addl_recs: Seq<RecordModel>,
}

impl View for DnsQuestion {
    type V = QuestionModel;

    open spec fn view(&self) -> QuestionModel {
        QuestionModel { qname: self.qname.deep_view(), qtype: self.qtype, qclass: self.qclass }
    }
}

impl View for DnsResourceRecord {
    type V = RecordModel;

    open spec fn view(&self) -> RecordModel {
        RecordModel {
            name: self.name.deep_view(),
            rr_type: self.rr_type,
            class: self.class,
            ttl: self.ttl,
            rd_length: self.rd_length,
            record: self.record@,
        }
    }
}

/// The models of a sequence of questions, in order.
pub open spec fn questions_view(v: Seq<DnsQuestion>) -> Seq<QuestionModel> {
    Seq::new(v.len(), |i: int| v[i]@)
}

/// The models of a sequence of records, in order.
pub open spec fn records_view(v: Seq<DnsResourceRecord>) -> Seq<RecordModel> {
    Seq::new(v.len(), |i: int| v[i]@)
}

impl View for DnsPacket {
    type V = PacketModel;

    open spec fn view(&self) -> PacketModel {
        PacketModel {
            id: self.id,
            flags: self.flags,
            questions: questions_view(self.questions@),
            answers: records_view(self.answers@),
            nameservers: records_view(self.nameservers@),
            addl_recs: records_view(self.addl_recs@),
        }
    }
}

/// The wire value of a record's class field, whichever reading it has.
pub open spec fn spec_class_field_code(c: RecordClass) -> u16 {
    match c {
        RecordClass::Known(cl) => cl.code(),
        RecordClass::OptPayloadSize(n) => n,
    }
}

/// A question that can be put on the wire: its name is valid.
pub open spec fn spec_question_valid(q: QuestionModel) -> bool {
    spec_name_valid(q.qname)
}

/// The wire encoding of a question: its name, then the type and class as
/// 16-bit integers.
pub open spec fn spec_encode_question(q: QuestionModel) -> Seq<u8> {
    spec_encode_name(q.qname) + be16_bytes(q.qtype.code()) + be16_bytes(q.qclass.code())
}

/// A record that the encoder accepts: valid name and a declared data
/// length that equals the data actually held.
pub open spec fn spec_record_encodable(r: RecordModel) -> bool {
    spec_name_valid(r.name) && r.rd_length as int == r.record.len()
}

/// A syntactically valid record: encodable, and its class field read the
/// way its type demands — the raw payload-size reading exactly when the
/// type is `OPT`.
pub open spec fn spec_record_valid(r: RecordModel) -> bool {
    spec_record_encodable(r) && ((r.rr_type == DnsRRType::OPT) <==> (r.class is OptPayloadSize))
}

/// The wire encoding of a resource record.
pub open spec fn spec_encode_record(r: RecordModel) -> Seq<u8> {
    spec_encode_name(r.name) + be16_bytes(r.rr_type.code()) + be16_bytes(
        spec_class_field_code(r.class),
    ) + be32_bytes(r.ttl) + be16_bytes(r.rd_length) + r.record
}

/// The concatenated encodings of a question section.
pub open spec fn spec_encode_questions(qs: Seq<QuestionModel>) -> Seq<u8>
    decreases qs.len(),
{
    if qs.len() == 0 {
        Seq::empty()
    } else {
        spec_encode_question(qs[0]) + spec_encode_questions(qs.drop_first())
    }
}

/// The concatenated encodings of a record section.
pub open spec fn spec_encode_records(rs: Seq<RecordModel>) -> Seq<u8>
    decreases rs.len(),
{
    if rs.len() == 0 {
        Seq::empty()
    } else {
        spec_encode_record(rs[0]) + spec_encode_records(rs.drop_first())
    }
}

/// A packet the encoder accepts: each section fits its 16-bit count and
/// every member is encodable.
pub open spec fn spec_packet_encodable(p: PacketModel) -> bool {
    &&& p.questions.len() <= 0xffff
    &&& p.answers.len() <= 0xffff
    &&& p.nameservers.len() <= 0xffff
    &&& p.addl_recs.len() <= 0xffff
    &&& forall|i: int| 0 <= i < p.questions.len() ==> spec_question_valid(#[trigger] p.questions[i])
    &&& forall|i: int| 0 <= i < p.answers.len() ==> spec_record_encodable(#[trigger] p.answers[i])
    &&& forall|i: int|
        0 <= i < p.nameservers.len() ==> spec_record_encodable(#[trigger] p.nameservers[i])
    &&& forall|i: int|
        0 <= i < p.addl_recs.len() ==> spec_record_encodable(#[trigger] p.addl_recs[i])
}

/// A syntactically valid packet: encodable, with every record's class
/// field consistent with its type.
pub open spec fn spec_packet_valid(p: PacketModel) -> bool {
    &&& spec_packet_encodable(p)
    &&& forall|i: int| 0 <= i < p.answers.len() ==> spec_record_valid(#[trigger] p.answers[i])
    &&& forall|i: int|
        0 <= i < p.nameservers.len() ==> spec_record_valid(#[trigger] p.nameservers[i])
    &&& forall|i: int| 0 <= i < p.addl_recs.len() ==> spec_record_valid(#[trigger] p.addl_recs[i])
}

/// The 12 header bytes: id, flags, and the four section counts in order.
pub open spec fn spec_header_bytes(p: PacketModel) -> Seq<u8> {
    be16_bytes(p.id) + seq![spec_flags_byte0(p.flags), spec_flags_byte1(p.flags)] + be16_bytes(
        p.questions.len() as u16,
    ) + be16_bytes(p.answers.len() as u16) + be16_bytes(p.nameservers.len() as u16) + be16_bytes(
        p.addl_recs.len() as u16,
    )
}

/// The wire encoding of a whole packet: header, questions, answers,
/// authority records, additional records.
pub open spec fn spec_encode_packet(p: PacketModel) -> Seq<u8> {
    spec_header_bytes(p) + spec_encode_questions(p.questions) + spec_encode_records(p.answers)
        + spec_encode_records(p.nameservers) + spec_encode_records(p.addl_recs)
}

/// Appending one more question to a section prefix extends the section's
/// encoding by that question's encoding.
proof fn lemma_encode_questions_take_snoc(qs: Seq<QuestionModel>, i: int)
    requires
        0 <= i < qs.len(),
    ensures
        spec_encode_questions(qs.take(i + 1)) == spec_encode_questions(qs.take(i))
            + spec_encode_question(qs[i]),
    decreases i,
{
    let a = qs.take(i + 1);
    let b = qs.take(i);
    if i == 0 {
        assert(a.drop_first() =~= Seq::<QuestionModel>::empty());
        assert(spec_encode_questions(Seq::<QuestionModel>::empty()) == Seq::<u8>::empty());
        assert(a[0] == qs[0]);
        assert(spec_encode_questions(a) =~= spec_encode_question(qs[0]));
        assert(spec_encode_questions(b) + spec_encode_question(qs[0]) =~= spec_encode_question(
            qs[0],
        ));
    } else {
        lemma_encode_questions_take_snoc(qs.drop_first(), i - 1);
        assert(a.drop_first() =~= qs.drop_first().take(i));
        assert(b.drop_first() =~= qs.drop_first().take(i - 1));
        assert(qs.drop_first()[i - 1] == qs[i]);
        assert(spec_encode_questions(a) =~= spec_encode_questions(b) + spec_encode_question(
            qs[i],
        ));
    }
}

/// Appending one more record to a section prefix extends the section's
/// encoding by that record's encoding.
proof fn lemma_encode_records_take_snoc(rs: Seq<RecordModel>, i: int)
    requires
        0 <= i < rs.len(),
    ensures
        spec_encode_records(rs.take(i + 1)) == spec_encode_records(rs.take(i)) + spec_encode_record(
            rs[i],
        ),
    decreases i,
{
    let a = rs.take(i + 1);
    let b = rs.take(i);
    if i == 0 {
        assert(a.drop_first() =~= Seq::<RecordModel>::empty());
        assert(spec_encode_records(Seq::<RecordModel>::empty()) == Seq::<u8>::empty());
        assert(a[0] == rs[0]);
        assert(spec_encode_records(a) =~= spec_encode_record(rs[0]));
        assert(spec_encode_records(b) + spec_encode_record(rs[0]) =~= spec_encode_record(rs[0]));
    } else {
        lemma_encode_records_take_snoc(rs.drop_first(), i - 1);
        assert(a.drop_first() =~= rs.drop_first().take(i));
        assert(b.drop_first() =~= rs.drop_first().take(i - 1));
        assert(rs.drop_first()[i - 1] == rs[i]);
        assert(spec_encode_records(a) =~= spec_encode_records(b) + spec_encode_record(rs[i]));
    }
}

impl DnsQuestion {
    /// Encode the question: its name in uncompressed form, then type and
    /// class. Fails only when the name is not fit for the wire.
    pub fn to_bytes(&self) -> (r: Result<Vec<u8>, DecodeError>)
        ensures
            match r {
                Ok(bytes) => spec_question_valid(self@) && bytes@ == spec_encode_question(self@),
                Err(e) => !spec_question_valid(self@) && e == DecodeError::LengthMismatch,
            },
    {
        let mut bytes = match serialize_name(&self.qname) {
            Ok(b) => b,
            Err(e) => {
                return Err(e);
            },
        };
        put_u16(&mut bytes, self.qtype.to_wire());
        put_u16(&mut bytes, self.qclass.to_wire());
        proof {
            assert(bytes@ =~= spec_encode_question(self@));
        }
        Ok(bytes)
    }
}

impl RecordClass {
    /// The wire value of the class field, executable form of
    /// [`spec_class_field_code`].
    pub fn to_wire(&self) -> (r: u16)
        ensures
            r == spec_class_field_code(*self),
    {
        match self {
            RecordClass::Known(cl) => cl.to_wire(),
            RecordClass::OptPayloadSize(n) => *n,
        }
    }
}

impl DnsResourceRecord {
    /// Encode the record. The record-data length field is re-derived from
    /// the payload actually held; a record whose declared `rd_length`
    /// disagrees with its payload is refused rather than serialized
    /// inconsistently, as is one whose name is not fit for the wire.
    pub fn to_bytes(&self) -> (r: Result<Vec<u8>, DecodeError>)
        ensures
            match r {
                Ok(bytes) => spec_record_encodable(self@) && bytes@ == spec_encode_record(self@),
                Err(e) => !spec_record_encodable(self@) && e == DecodeError::LengthMismatch,
            },
    {
        if self.record.len() != self.rd_length as usize {
            return Err(DecodeError::LengthMismatch);
        }
        let mut bytes = match serialize_name(&self.name) {
            Ok(b) => b,
            Err(e) => {
                return Err(e);
            },
        };
        put_u16(&mut bytes, self.rr_type.to_wire());
        put_u16(&mut bytes, self.class.to_wire());
        put_u32(&mut bytes, self.ttl);
        put_u16(&mut bytes, self.record.len() as u16);
        bytes.extend_from_slice(self.record.as_slice());
        proof {
            assert(bytes@ =~= spec_encode_record(self@));
        }
        Ok(bytes)
    }
}

impl DnsPacket {
    /// Encode the packet: id, flags, the four counts taken from the
    /// sections' own lengths, then every section in order. Fails only
    /// when a section outgrows its 16-bit count or a member is itself not
    /// encodable.
    pub fn to_bytes(&self) -> (r: Result<Vec<u8>, DecodeError>)
        ensures
            match r {
                Ok(bytes) => spec_packet_encodable(self@) && bytes@ == spec_encode_packet(self@),
                Err(e) => !spec_packet_encodable(self@) && e == DecodeError::LengthMismatch,
            },
    {
        if self.questions.len() > 0xffff || self.answers.len() > 0xffff || self.nameservers.len()
            > 0xffff || self.addl_recs.len() > 0xffff {
            return Err(DecodeError::LengthMismatch);
        }
        let ghost m = self@;
        let mut bytes: Vec<u8> = Vec::new();
        put_u16(&mut bytes, self.id);
        let fb = self.flags.to_bytes();
        bytes.push(fb[0]);
        bytes.push(fb[1]);
        put_u16(&mut bytes, self.questions.len() as u16);
        put_u16(&mut bytes, self.answers.len() as u16);
        put_u16(&mut bytes, self.nameservers.len() as u16);
        put_u16(&mut bytes, self.addl_recs.len() as u16);
        proof {
            assert(bytes@ =~= spec_header_bytes(m));
        }

        let mut i: usize = 0;
        while i < self.questions.len()
            invariant
                0 <= i <= self.questions@.len(),
                m == self@,
                m.questions == questions_view(self.questions@),
                bytes@ == spec_header_bytes(m) + spec_encode_questions(m.questions.take(i as int)),
                forall|k: int|
                    0 <= k < i ==> spec_question_valid(#[trigger] m.questions[k]),
            decreases self.questions@.len() - i,
        {
            let enc = match self.questions[i].to_bytes() {
                Ok(b) => b,
                Err(e) => {
                    proof {
                        assert(m.questions[i as int] == self.questions@[i as int]@);
                    }
                    return Err(e);
                },
            };
            bytes.extend_from_slice(enc.as_slice());
            proof {
                lemma_encode_questions_take_snoc(m.questions, i as int);
                assert(m.questions[i as int] == self.questions@[i as int]@);
                assert(bytes@ =~= spec_header_bytes(m) + spec_encode_questions(
                    m.questions.take(i + 1),
                ));
            }
            i += 1;
        }
        proof {
            assert(m.questions.take(m.questions.len() as int) =~= m.questions);
        }

        let ghost done_q = spec_header_bytes(m) + spec_encode_questions(m.questions);
        let mut i: usize = 0;
        while i < self.answers.len()
            invariant
                0 <= i <= self.answers@.len(),
                m == self@,
                m.answers == records_view(self.answers@),
                bytes@ == done_q + spec_encode_records(m.answers.take(i as int)),
                forall|k: int| 0 <= k < i ==> spec_record_encodable(#[trigger] m.answers[k]),
            decreases self.answers@.len() - i,
        {
            let enc = match self.answers[i].to_bytes() {
                Ok(b) => b,
                Err(e) => {
                    proof {
                        assert(m.answers[i as int] == self.answers@[i as int]@);
                    }
                    return Err(e);
                },
            };
            bytes.extend_from_slice(enc.as_slice());
            proof {
                lemma_encode_records_take_snoc(m.answers, i as int);
                assert(m.answers[i as int] == self.answers@[i as int]@);
                assert(bytes@ =~= done_q + spec_encode_records(m.answers.take(i + 1)));
            }
            i += 1;
        }
        proof {
            assert(m.answers.take(m.answers.len() as int) =~= m.answers);
        }

        let ghost done_a = done_q + spec_encode_records(m.answers);
        let mut i: usize = 0;
        while i < self.nameservers.len()
            invariant
                0 <= i <= self.nameservers@.len(),
                m == self@,
                m.nameservers == records_view(self.nameservers@),
                bytes@ == done_a + spec_encode_records(m.nameservers.take(i as int)),
                forall|k: int| 0 <= k < i ==> spec_record_encodable(#[trigger] m.nameservers[k]),
            decreases self.nameservers@.len() - i,
        {
            let enc = match self.nameservers[i].to_bytes() {
                Ok(b) => b,
                Err(e) => {
                    proof {
                        assert(m.nameservers[i as int] == self.nameservers@[i as int]@);
                    }
                    return Err(e);
                },
            };
            bytes.extend_from_slice(enc.as_slice());
            proof {
                lemma_encode_records_take_snoc(m.nameservers, i as int);
                assert(m.nameservers[i as int] == self.nameservers@[i as int]@);
                assert(bytes@ =~= done_a + spec_encode_records(m.nameservers.take(i + 1)));
            }
            i += 1;
        }
        proof {
            assert(m.nameservers.take(m.nameservers.len() as int) =~= m.nameservers);
        }

        let ghost done_n = done_a + spec_encode_records(m.nameservers);
        let mut i: usize = 0;
        while i < self.addl_recs.len()
            invariant
                0 <= i <= self.addl_recs@.len(),
                m == self@,
                m.addl_recs == records_view(self.addl_recs@),
                bytes@ == done_n + spec_encode_records(m.addl_recs.take(i as int)),
                forall|k: int| 0 <= k < i ==> spec_record_encodable(#[trigger] m.addl_recs[k]),
            decreases self.addl_recs@.len() - i,
        {
            let enc = match self.addl_recs[i].to_bytes() {
                Ok(b) => b,
                Err(e) => {
                    proof {
                        assert(m.addl_recs[i as int] == self.addl_recs@[i as int]@);
                    }
                    return Err(e);
                },
            };
            bytes.extend_from_slice(enc.as_slice());
            proof {
                lemma_encode_records_take_snoc(m.addl_recs, i as int);
                assert(m.addl_recs[i as int] == self.addl_recs@[i as int]@);
                assert(bytes@ =~= done_n + spec_encode_records(m.addl_recs.take(i + 1)));
            }
            i += 1;
        }
        proof {
            assert(m.addl_recs.take(m.addl_recs.len() as int) =~= m.addl_recs);
            assert(bytes@ =~= spec_encode_packet(m));
        }
        Ok(bytes)
    }
}

/// The question decoded at offset `pos` of `buf`, and the offset just
/// past it: a name, then the desired type and class.
pub open spec fn spec_decode_question(buf: Seq<u8>, pos: int) -> Result<
    (QuestionModel, int),
    DecodeError,
> {
    match spec_decode_name(buf, pos) {
        Err(e) => Err(e),
        Ok(nr) => {
            let p = nr.1;
            if p + 4 > buf.len() {
                Err(DecodeError::TruncatedInput)
            } else {
                match (
                    DnsRRType::of_code(be16_val(buf[p], buf[p + 1])),
                    DnsClass::of_code(be16_val(buf[p + 2], buf[p + 3])),
                ) {
                    (Some(t), Some(c)) => Ok(
                        (QuestionModel { qname: nr.0, qtype: t, qclass: c }, p + 4),
                    ),
                    _ => Err(DecodeError::UnknownEnumValue),
                }
            }
        },
    }
}

/// The resource record decoded at offset `pos` of `buf`, and the offset
/// just past its payload. The record's type is examined before its class
/// field is interpreted, so an `OPT` record's payload size is kept raw
/// instead of being forced through the class registry.
pub open spec fn spec_decode_record(buf: Seq<u8>, pos: int) -> Result<
    (RecordModel, int),
    DecodeError,
> {
    match spec_decode_name(buf, pos) {
        Err(e) => Err(e),
        Ok(nr) => {
            let p = nr.1;
            if p + 10 > buf.len() {
                Err(DecodeError::TruncatedInput)
            } else {
                let ccode = be16_val(buf[p + 2], buf[p + 3]);
                match DnsRRType::of_code(be16_val(buf[p], buf[p + 1])) {
                    None => Err(DecodeError::UnknownEnumValue),
                    Some(t) => {
                        let cls = if t == DnsRRType::OPT {
                            Some(RecordClass::OptPayloadSize(ccode))
                        } else {
                            match DnsClass::of_code(ccode) {
                                Some(c) => Some(RecordClass::Known(c)),
                                None => None,
                            }
                        };
                        match cls {
                            None => Err(DecodeError::UnknownEnumValue),
                            Some(cl) => {
                                let rdlen = be16_val(buf[p + 8], buf[p + 9]);
                                if p + 10 + rdlen > buf.len() {
                                    Err(DecodeError::TruncatedInput)
                                } else {
                                    Ok(
                                        (
                                            RecordModel {
                                                name: nr.0,
                                                rr_type: t,
                                                class: cl,
                                                ttl: be32_val(
                                                    buf[p + 4],
                                                    buf[p + 5],
                                                    buf[p + 6],
                                                    buf[p + 7],
                                                ),
                                                rd_length: rdlen,
                                                record: buf.subrange(p + 10, p + 10 + rdlen),
                                            },
                                            p + 10 + rdlen,
                                        ),
                                    )
                                }
                            },
                        }
                    },
                }
            }
        },
    }
}

/// `n` questions decoded one after another from offset `pos`, threading
/// the cursor through each.
pub open spec fn spec_decode_questions(buf: Seq<u8>, pos: int, n: int) -> Result<
    (Seq<QuestionModel>, int),
    DecodeError,
>
    decreases n,
{
    if n <= 0 {
        Ok((Seq::empty(), pos))
    } else {
        match spec_decode_question(buf, pos) {
            Err(e) => Err(e),
            Ok(qr) => match spec_decode_questions(buf, qr.1, n - 1) {
                Err(e) => Err(e),
                Ok(rest) => Ok((seq![qr.0] + rest.0, rest.1)),
            },
        }
    }
}

/// `n` records decoded one after another from offset `pos`, threading the
/// cursor through each.
pub open spec fn spec_decode_records(buf: Seq<u8>, pos: int, n: int) -> Result<
    (Seq<RecordModel>, int),
    DecodeError,
>
    decreases n,
{
    if n <= 0 {
        Ok((Seq::empty(), pos))
    } else {
        match spec_decode_record(buf, pos) {
            Err(e) => Err(e),
            Ok(rr) => match spec_decode_records(buf, rr.1, n - 1) {
                Err(e) => Err(e),
                Ok(rest) => Ok((seq![rr.0] + rest.0, rest.1)),
            },
        }
    }
}

/// The whole packet decoded from `buf`: the fixed 12-byte header, then
/// exactly the number of questions and records the header counts declare.
/// Bytes past the last declared record are ignored.
pub open spec fn spec_decode_packet(buf: Seq<u8>) -> Result<PacketModel, DecodeError> {
    if buf.len() < 12 {
        Err(DecodeError::TruncatedInput)
    } else {
        match spec_flags_decode(buf[2], buf[3]) {
            Err(e) => Err(e),
            Ok(flags) => match spec_decode_questions(buf, 12, be16_val(buf[4], buf[5]) as int) {
                Err(e) => Err(e),
                Ok(qs) => match spec_decode_records(buf, qs.1, be16_val(buf[6], buf[7]) as int) {
                    Err(e) => Err(e),
                    Ok(ans) => match spec_decode_records(
                        buf,
                        ans.1,
                        be16_val(buf[8], buf[9]) as int,
                    ) {
                        Err(e) => Err(e),
                        Ok(ns) => match spec_decode_records(
                            buf,
                            ns.1,
                            be16_val(buf[10], buf[11]) as int,
                        ) {
                            Err(e) => Err(e),
                            Ok(ar) => Ok(
                                PacketModel {
                                    id: be16_val(buf[0], buf[1]),
                                    flags,
                                    questions: qs.0,
                                    answers: ans.0,
                                    nameservers: ns.0,
                                    addl_recs: ar.0,
                                },
                            ),
                        },
                    },
                },
            },
        }
    }
}

impl DnsQuestion {
    /// Decode the question at offset `pos` of `buf`, returning it with
    /// the offset just past its encoding.
    pub fn from_bytes(buf: &[u8], pos: usize) -> (r: Result<(DnsQuestion, usize), DecodeError>)
        ensures
            match r {
                Ok(qr) => spec_decode_question(buf@, pos as int) == Ok::<
                    (QuestionModel, int),
                    DecodeError,
                >((qr.0@, qr.1 as int)),
                Err(e) => spec_decode_question(buf@, pos as int) == Err::<
                    (QuestionModel, int),
                    DecodeError,
                >(e),
            },
    {
        let (qname, p) = match deserialize_name(buf, pos) {
            Ok(x) => x,
            Err(e) => {
                return Err(e);
            },
        };
        if buf.len() < 4 || p > buf.len() - 4 {
            return Err(DecodeError::TruncatedInput);
        }
        let qtype_num = big_endian_bytes_to_u16(&buf[p..p + 2]);
        let qclass_num = big_endian_bytes_to_u16(&buf[p + 2..p + 4]);
        let qtype = match DnsRRType::from_wire(qtype_num) {
            Ok(t) => t,
            Err(e) => {
                return Err(e);
            },
        };
        let qclass = match DnsClass::from_wire(qclass_num) {
            Ok(c) => c,
            Err(e) => {
                return Err(e);
            },
        };
        Ok((DnsQuestion { qname, qtype, qclass }, p + 4))
    }
}

impl DnsResourceRecord {
    /// Decode the resource record at offset `pos` of `packet_bytes`,
    /// returning it with the offset just past its payload. The payload is
    /// copied verbatim, exactly as many bytes as the record declares.
    pub fn from_bytes(packet_bytes: &[u8], pos: usize) -> (r: Result<
        (DnsResourceRecord, usize),
        DecodeError,
    >)
        ensures
            match r {
                Ok(rr) => spec_decode_record(packet_bytes@, pos as int) == Ok::<
                    (RecordModel, int),
                    DecodeError,
                >((rr.0@, rr.1 as int)),
                Err(e) => spec_decode_record(packet_bytes@, pos as int) == Err::<
                    (RecordModel, int),
                    DecodeError,
                >(e),
            },
    {
        let (name, p) = match deserialize_name(packet_bytes, pos) {
            Ok(x) => x,
            Err(e) => {
                return Err(e);
            },
        };
        if packet_bytes.len() < 10 || p > packet_bytes.len() - 10 {
            return Err(DecodeError::TruncatedInput);
        }
        let rrtype_num = big_endian_bytes_to_u16(&packet_bytes[p..p + 2]);
        let class_num = big_endian_bytes_to_u16(&packet_bytes[p + 2..p + 4]);
        let ttl = big_endian_bytes_to_u32(&packet_bytes[p + 4..p + 8]);
        let rd_length = big_endian_bytes_to_u16(&packet_bytes[p + 8..p + 10]);

        let rr_type = match DnsRRType::from_wire(rrtype_num) {
            Ok(t) => t,
            Err(e) => {
                return Err(e);
            },
        };
        let class = if rr_type == DnsRRType::OPT {
            RecordClass::OptPayloadSize(class_num)
        } else {
            match DnsClass::from_wire(class_num) {
                Ok(c) => RecordClass::Known(c),
                Err(e) => {
                    return Err(e);
                },
            }
        };
        if (rd_length as usize) > packet_bytes.len() - (p + 10) {
            return Err(DecodeError::TruncatedInput);
        }
        let record = slice_to_vec(
            slice_subrange(packet_bytes, p + 10, p + 10 + rd_length as usize),
        );
        let rr = DnsResourceRecord { name, rr_type, class, ttl, rd_length, record };
        Ok((rr, p + 10 + rd_length as usize))
    }
}

/// Decode `count` questions one after another starting at `start`.
fn decode_questions(buf: &[u8], start: usize, count: u16) -> (r: Result<
    (Vec<DnsQuestion>, usize),
    DecodeError,
>)
    ensures
        match r {
            Ok(v) => spec_decode_questions(buf@, start as int, count as int) == Ok::<
                (Seq<QuestionModel>, int),
                DecodeError,
            >((questions_view(v.0@), v.1 as int)) && v.0@.len() == count,
            Err(e) => spec_decode_questions(buf@, start as int, count as int) == Err::<
                (Seq<QuestionModel>, int),
                DecodeError,
            >(e),
        },
{
    let ghost total = spec_decode_questions(buf@, start as int, count as int);
    let mut out: Vec<DnsQuestion> = Vec::new();
    let mut pos: usize = start;
    let mut i: u16 = 0;
    proof {
        if let Ok(rest) = total {
            assert(questions_view(out@) + rest.0 =~= rest.0);
        }
    }
    while i < count
        invariant
            i <= count,
            out@.len() == i as int,
            total == spec_decode_questions(buf@, start as int, count as int),
            total == (match spec_decode_questions(buf@, pos as int, count as int - i as int) {
                Ok(rest) => Ok::<(Seq<QuestionModel>, int), DecodeError>(
                    (questions_view(out@) + rest.0, rest.1),
                ),
                Err(e) => Err::<(Seq<QuestionModel>, int), DecodeError>(e),
            }),
        decreases count as int - i as int,
    {
        match DnsQuestion::from_bytes(buf, pos) {
            Err(e) => {
                return Err(e);
            },
            Ok((q, p2)) => {
                proof {
                    let k = count as int - i as int;
                    if let Ok(rest2) = spec_decode_questions(buf@, p2 as int, k - 1) {
                        assert(questions_view(out@.push(q)) =~= questions_view(out@) + seq![q@]);
                        assert(questions_view(out@) + (seq![q@] + rest2.0) =~= questions_view(
                            out@.push(q),
                        ) + rest2.0);
                    }
                }
                out.push(q);
                pos = p2;
                i += 1;
            },
        }
    }
    proof {
        if let Ok(rest) = spec_decode_questions(buf@, pos as int, 0) {
            assert(questions_view(out@) + rest.0 =~= questions_view(out@));
        }
    }
    Ok((out, pos))
}

/// Decode `count` records one after another starting at `start`.
fn decode_records(buf: &[u8], start: usize, count: u16) -> (r: Result<
    (Vec<DnsResourceRecord>, usize),
    DecodeError,
>)
    ensures
        match r {
            Ok(v) => spec_decode_records(buf@, start as int, count as int) == Ok::<
                (Seq<RecordModel>, int),
                DecodeError,
            >((records_view(v.0@), v.1 as int)) && v.0@.len() == count,
            Err(e) => spec_decode_records(buf@, start as int, count as int) == Err::<
                (Seq<RecordModel>, int),
                DecodeError,
            >(e),
        },
{
    let ghost total = spec_decode_records(buf@, start as int, count as int);
    let mut out: Vec<DnsResourceRecord> = Vec::new();
    let mut pos: usize = start;
    let mut i: u16 = 0;
    proof {
        if let Ok(rest) = total {
            assert(records_view(out@) + rest.0 =~= rest.0);
        }
    }
    while i < count
        invariant
            i <= count,
            out@.len() == i as int,
            total == spec_decode_records(buf@, start as int, count as int),
            total == (match spec_decode_records(buf@, pos as int, count as int - i as int) {
                Ok(rest) => Ok::<(Seq<RecordModel>, int), DecodeError>(
                    (records_view(out@) + rest.0, rest.1),
                ),
                Err(e) => Err::<(Seq<RecordModel>, int), DecodeError>(e),
            }),
        decreases count as int - i as int,
    {
        match DnsResourceRecord::from_bytes(buf, pos) {
            Err(e) => {
                return Err(e);
            },
            Ok((rec, p2)) => {
                proof {
                    let k = count as int - i as int;
                    if let Ok(rest2) = spec_decode_records(buf@, p2 as int, k - 1) {
                        assert(records_view(out@.push(rec)) =~= records_view(out@) + seq![rec@]);
                        assert(records_view(out@) + (seq![rec@] + rest2.0) =~= records_view(
                            out@.push(rec),
                        ) + rest2.0);
                    }
                }
                out.push(rec);
                pos = p2;
                i += 1;
            },
        }
    }
    proof {
        if let Ok(rest) = spec_decode_records(buf@, pos as int, 0) {
            assert(records_view(out@) + rest.0 =~= records_view(out@));
        }
    }
    Ok((out, pos))
}

impl DnsPacket {
    /// Decode a whole packet from the datagram bytes.
    ///
    /// A buffer shorter than the 12-byte header is `TruncatedInput`; on
    /// success each section holds exactly as many entries as the header
    /// count that announced it.
    pub fn from_bytes(bytes: &[u8]) -> (r: Result<DnsPacket, DecodeError>)
        ensures
            match r {
                Ok(p) => spec_decode_packet(bytes@) == Ok::<PacketModel, DecodeError>(p@)
                    && bytes@.len() >= 12 && p.questions@.len() == be16_val(bytes@[4], bytes@[5])
                    && p.answers@.len() == be16_val(bytes@[6], bytes@[7]) && p.nameservers@.len()
                    == be16_val(bytes@[8], bytes@[9]) && p.addl_recs@.len() == be16_val(
                    bytes@[10],
                    bytes@[11],
                ),
                Err(e) => spec_decode_packet(bytes@) == Err::<PacketModel, DecodeError>(e),
            },
            bytes@.len() < 12 ==> r == Err::<DnsPacket, DecodeError>(DecodeError::TruncatedInput),
    {
        if bytes.len() < 12 {
            return Err(DecodeError::TruncatedInput);
        }
        let id = big_endian_bytes_to_u16(&bytes[0..2]);
        let flags = match DnsFlags::from_bytes(&bytes[2..4]) {
            Ok(f) => f,
            Err(e) => {
                return Err(e);
            },
        };
        let qd_count = big_endian_bytes_to_u16(&bytes[4..6]);
        let an_count = big_endian_bytes_to_u16(&bytes[6..8]);
        let ns_count = big_endian_bytes_to_u16(&bytes[8..10]);
        let ar_count = big_endian_bytes_to_u16(&bytes[10..12]);

        let (questions, p1) = match decode_questions(bytes, 12, qd_count) {
            Ok(x) => x,
            Err(e) => {
                return Err(e);
            },
        };
        let (answers, p2) = match decode_records(bytes, p1, an_count) {
            Ok(x) => x,
            Err(e) => {
                return Err(e);
            },
        };
        let (nameservers, p3) = match decode_records(bytes, p2, ns_count) {
            Ok(x) => x,
            Err(e) => {
                return Err(e);
            },
        };
        let (addl_recs, _p4) = match decode_records(bytes, p3, ar_count) {
            Ok(x) => x,
            Err(e) => {
                return Err(e);
            },
        };
        Ok(DnsPacket { id, flags, questions, answers, nameservers, addl_recs })
    }
}

/// Decoding reads back exactly the question that encoding wrote, wherever
/// its encoding sits in a larger buffer.
pub proof fn lemma_question_round_trip_at(buf: Seq<u8>, pos: int, q: QuestionModel)
    requires
        spec_question_valid(q),
        0 <= pos,
        pos + spec_encode_question(q).len() <= buf.len(),
        buf.subrange(pos, pos + spec_encode_question(q).len() as int) == spec_encode_question(q),
    ensures
        spec_decode_question(buf, pos) == Ok::<(QuestionModel, int), DecodeError>(
            (q, pos + spec_encode_question(q).len()),
        ),
{
    let enc = spec_encode_question(q);
    let nb = spec_encode_name(q.qname);
    let w = spec_name_wire_len(q.qname);
    let tb = be16_bytes(q.qtype.code());
    let cb = be16_bytes(q.qclass.code());
    assert(nb.len() == w);
    assert(tb.len() == 2 && cb.len() == 2);
    assert(enc.len() == w + 4);
    assert forall|k: int| 0 <= k < enc.len() implies buf[pos + k] == enc[k] by {
        assert(buf.subrange(pos, pos + enc.len() as int)[k] == buf[pos + k]);
    }
    assert(buf.subrange(pos, pos + w) =~= nb) by {
        assert forall|k: int| 0 <= k < w implies buf.subrange(pos, pos + w)[k] == nb[k] by {
            assert(buf[pos + k] == enc[k]);
            assert(enc[k] == nb[k]);
        }
    };
    crate::name::lemma_name_round_trip_at(buf, pos, q.qname, MAX_POINTER_HOPS as int, 0);
    let p = pos + w;
    assert(buf[p] == enc[w] && enc[w] == tb[0]);
    assert(buf[p + 1] == enc[w + 1] && enc[w + 1] == tb[1]);
    assert(buf[p + 2] == enc[w + 2] && enc[w + 2] == cb[0]);
    assert(buf[p + 3] == enc[w + 3] && enc[w + 3] == cb[1]);
    crate::wire::lemma_be16_round_trip(q.qtype.code());
    crate::wire::lemma_be16_round_trip(q.qclass.code());
    crate::registry::lemma_rr_type_code_round_trip(q.qtype);
    crate::registry::lemma_class_code_round_trip(q.qclass);
    assert(spec_decode_question(buf, pos) matches Ok(res) && res.0 =~= q && res.1 == pos
        + enc.len());
}

/// Decoding reads back exactly the resource record that encoding wrote,
/// wherever its encoding sits in a larger buffer.
pub proof fn lemma_record_round_trip_at(buf: Seq<u8>, pos: int, r: RecordModel)
    requires
        spec_record_valid(r),
        0 <= pos,
        pos + spec_encode_record(r).len() <= buf.len(),
        buf.subrange(pos, pos + spec_encode_record(r).len() as int) == spec_encode_record(r),
    ensures
        spec_decode_record(buf, pos) == Ok::<(RecordModel, int), DecodeError>(
            (r, pos + spec_encode_record(r).len()),
        ),
{
    let enc = spec_encode_record(r);
    let nb = spec_encode_name(r.name);
    let w = spec_name_wire_len(r.name);
    let tb = be16_bytes(r.rr_type.code());
    let cb = be16_bytes(spec_class_field_code(r.class));
    let lb = be32_bytes(r.ttl);
    let db = be16_bytes(r.rd_length);
    assert(nb.len() == w);
    assert(tb.len() == 2 && cb.len() == 2 && lb.len() == 4 && db.len() == 2);
    assert(enc.len() == w + 10 + r.record.len());
    assert forall|k: int| 0 <= k < enc.len() implies buf[pos + k] == enc[k] by {
        assert(buf.subrange(pos, pos + enc.len() as int)[k] == buf[pos + k]);
    }
    assert(buf.subrange(pos, pos + w) =~= nb) by {
        assert forall|k: int| 0 <= k < w implies buf.subrange(pos, pos + w)[k] == nb[k] by {
            assert(buf[pos + k] == enc[k]);
            assert(enc[k] == nb[k]);
        }
    };
    crate::name::lemma_name_round_trip_at(buf, pos, r.name, MAX_POINTER_HOPS as int, 0);
    let p = pos + w;
    assert(buf[p] == tb[0] && buf[p + 1] == tb[1]) by {
        assert(buf[p] == enc[w] && enc[w] == tb[0]);
        assert(buf[p + 1] == enc[w + 1] && enc[w + 1] == tb[1]);
    };
    assert(buf[p + 2] == cb[0] && buf[p + 3] == cb[1]) by {
        assert(buf[p + 2] == enc[w + 2] && enc[w + 2] == cb[0]);
        assert(buf[p + 3] == enc[w + 3] && enc[w + 3] == cb[1]);
    };
    assert(buf[p + 4] == lb[0] && buf[p + 5] == lb[1] && buf[p + 6] == lb[2] && buf[p + 7]
        == lb[3]) by {
        assert(buf[p + 4] == enc[w + 4] && enc[w + 4] == lb[0]);
        assert(buf[p + 5] == enc[w + 5] && enc[w + 5] == lb[1]);
        assert(buf[p + 6] == enc[w + 6] && enc[w + 6] == lb[2]);
        assert(buf[p + 7] == enc[w + 7] && enc[w + 7] == lb[3]);
    };
    assert(buf[p + 8] == db[0] && buf[p + 9] == db[1]) by {
        assert(buf[p + 8] == enc[w + 8] && enc[w + 8] == db[0]);
        assert(buf[p + 9] == enc[w + 9] && enc[w + 9] == db[1]);
    };
    crate::wire::lemma_be16_round_trip(r.rr_type.code());
    crate::wire::lemma_be16_round_trip(spec_class_field_code(r.class));
    crate::wire::lemma_be32_round_trip(r.ttl);
    crate::wire::lemma_be16_round_trip(r.rd_length);
    crate::registry::lemma_rr_type_code_round_trip(r.rr_type);
    assert(be16_val(buf[p], buf[p + 1]) == r.rr_type.code());
    assert(DnsRRType::of_code(be16_val(buf[p], buf[p + 1])) == Some(r.rr_type));
    if r.rr_type == DnsRRType::OPT {
        assert(r.class is OptPayloadSize);
    } else {
        assert(!(r.class is OptPayloadSize));
        match r.class {
            RecordClass::Known(c) => {
                crate::registry::lemma_class_code_round_trip(c);
            },
            RecordClass::OptPayloadSize(_) => {},
        }
    }
    assert(buf.subrange(p + 10, p + 10 + r.rd_length as int) =~= r.record) by {
        assert forall|k: int| 0 <= k < r.record.len() implies buf.subrange(
            p + 10,
            p + 10 + r.rd_length as int,
        )[k] == r.record[k] by {
            assert(buf[p + 10 + k] == enc[w + 10 + k]);
            assert(enc[w + 10 + k] == r.record[k]);
        }
    };
    assert(spec_decode_record(buf, pos) matches Ok(res) && res.0 =~= r && res.1 == pos
        + enc.len());
}

/// Decoding as many questions as a section holds reads back exactly the
/// section that encoding wrote, wherever it sits in a larger buffer.
pub proof fn lemma_questions_round_trip_at(buf: Seq<u8>, pos: int, qs: Seq<QuestionModel>)
    requires
        forall|i: int| 0 <= i < qs.len() ==> spec_question_valid(#[trigger] qs[i]),
        0 <= pos,
        pos + spec_encode_questions(qs).len() <= buf.len(),
        buf.subrange(pos, pos + spec_encode_questions(qs).len() as int) == spec_encode_questions(
            qs,
        ),
    ensures
        spec_decode_questions(buf, pos, qs.len() as int) == Ok::<
            (Seq<QuestionModel>, int),
            DecodeError,
        >((qs, pos + spec_encode_questions(qs).len())),
    decreases qs.len(),
{
    let enc = spec_encode_questions(qs);
    if qs.len() == 0 {
        assert(qs =~= Seq::<QuestionModel>::empty());
        assert(enc.len() == 0);
    } else {
        let e0 = spec_encode_question(qs[0]);
        let rest = qs.drop_first();
        let er = spec_encode_questions(rest);
        assert(enc == e0 + er);
        assert forall|k: int| 0 <= k < enc.len() implies buf[pos + k] == enc[k] by {
            assert(buf.subrange(pos, pos + enc.len() as int)[k] == buf[pos + k]);
        }
        assert(buf.subrange(pos, pos + e0.len() as int) =~= e0) by {
            assert forall|k: int| 0 <= k < e0.len() implies buf.subrange(
                pos,
                pos + e0.len() as int,
            )[k] == e0[k] by {
                assert(buf[pos + k] == enc[k]);
                assert(enc[k] == e0[k]);
            }
        };
        lemma_question_round_trip_at(buf, pos, qs[0]);
        let p1 = pos + e0.len() as int;
        assert(buf.subrange(p1, p1 + er.len() as int) =~= er) by {
            assert forall|k: int| 0 <= k < er.len() implies buf.subrange(
                p1,
                p1 + er.len() as int,
            )[k] == er[k] by {
                assert(buf[pos + (e0.len() + k)] == enc[e0.len() + k]);
                assert(enc[e0.len() + k] == er[k]);
            }
        };
        assert(forall|i: int| 0 <= i < rest.len() ==> spec_question_valid(#[trigger] rest[i]))
            by {
            assert(forall|i: int| 0 <= i < rest.len() ==> rest[i] == qs[i + 1]);
        };
        lemma_questions_round_trip_at(buf, p1, rest);
        assert(seq![qs[0]] + rest =~= qs);
        assert(spec_decode_questions(buf, pos, qs.len() as int) matches Ok(res) && res.0 =~= qs
            && res.1 == pos + enc.len());
    }
}

/// Decoding as many records as a section holds reads back exactly the
/// section that encoding wrote, wherever it sits in a larger buffer.
pub proof fn lemma_records_round_trip_at(buf: Seq<u8>, pos: int, rs: Seq<RecordModel>)
    requires
        forall|i: int| 0 <= i < rs.len() ==> spec_record_valid(#[trigger] rs[i]),
        0 <= pos,
        pos + spec_encode_records(rs).len() <= buf.len(),
        buf.subrange(pos, pos + spec_encode_records(rs).len() as int) == spec_encode_records(rs),
    ensures
        spec_decode_records(buf, pos, rs.len() as int) == Ok::<
            (Seq<RecordModel>, int),
            DecodeError,
        >((rs, pos + spec_encode_records(rs).len())),
    decreases rs.len(),
{
    let enc = spec_encode_records(rs);
    if rs.len() == 0 {
        assert(rs =~= Seq::<RecordModel>::empty());
        assert(enc.len() == 0);
    } else {
        let e0 = spec_encode_record(rs[0]);
        let rest = rs.drop_first();
        let er = spec_encode_records(rest);
        assert(enc == e0 + er);
        assert forall|k: int| 0 <= k < enc.len() implies buf[pos + k] == enc[k] by {
            assert(buf.subrange(pos, pos + enc.len() as int)[k] == buf[pos + k]);
        }
        assert(buf.subrange(pos, pos + e0.len() as int) =~= e0) by {
            assert forall|k: int| 0 <= k < e0.len() implies buf.subrange(
                pos,
                pos + e0.len() as int,
            )[k] == e0[k] by {
                assert(buf[pos + k] == enc[k]);
                assert(enc[k] == e0[k]);
            }
        };
        lemma_record_round_trip_at(buf, pos, rs[0]);
        let p1 = pos + e0.len() as int;
        assert(buf.subrange(p1, p1 + er.len() as int) =~= er) by {
            assert forall|k: int| 0 <= k < er.len() implies buf.subrange(
                p1,
                p1 + er.len() as int,
            )[k] == er[k] by {
                assert(buf[pos + (e0.len() + k)] == enc[e0.len() + k]);
                assert(enc[e0.len() + k] == er[k]);
            }
        };
        assert(forall|i: int| 0 <= i < rest.len() ==> spec_record_valid(#[trigger] rest[i])) by {
            assert(forall|i: int| 0 <= i < rest.len() ==> rest[i] == rs[i + 1]);
        };
        lemma_records_round_trip_at(buf, p1, rest);
        assert(seq![rs[0]] + rest =~= rs);
        assert(spec_decode_records(buf, pos, rs.len() as int) matches Ok(res) && res.0 =~= rs
            && res.1 == pos + enc.len());
    }
}

/// Round trip of a whole message: decoding the encoding of any
/// syntactically valid packet — valid names, consistent lengths and class
/// fields, sections within their 16-bit counts — gives back exactly that
/// packet. Encoded names are uncompressed, so no pointer is involved.
#[verifier::rlimit(100)]
#[verifier::spinoff_prover]
pub proof fn lemma_packet_round_trip(p: PacketModel)
    requires
        spec_packet_valid(p),
    ensures
        spec_decode_packet(spec_encode_packet(p)) == Ok::<PacketModel, DecodeError>(p),
{
    let buf = spec_encode_packet(p);
    let h = spec_header_bytes(p);
    let eq = spec_encode_questions(p.questions);
    let ea = spec_encode_records(p.answers);
    let en = spec_encode_records(p.nameservers);
    let er = spec_encode_records(p.addl_recs);
    let ib = be16_bytes(p.id);
    let fb = seq![spec_flags_byte0(p.flags), spec_flags_byte1(p.flags)];
    let qb = be16_bytes(p.questions.len() as u16);
    let ab = be16_bytes(p.answers.len() as u16);
    let nb = be16_bytes(p.nameservers.len() as u16);
    let rb = be16_bytes(p.addl_recs.len() as u16);
    assert(ib.len() == 2 && fb.len() == 2 && qb.len() == 2 && ab.len() == 2 && nb.len() == 2
        && rb.len() == 2);
    assert(h.len() == 12);
    assert(buf.len() == 12 + eq.len() + ea.len() + en.len() + er.len());

    assert(buf[0] == ib[0] && buf[1] == ib[1]);
    assert(buf[2] == fb[0] && buf[3] == fb[1]);
    assert(buf[4] == qb[0] && buf[5] == qb[1]);
    assert(buf[6] == ab[0] && buf[7] == ab[1]);
    assert(buf[8] == nb[0] && buf[9] == nb[1]);
    assert(buf[10] == rb[0] && buf[11] == rb[1]);

    crate::wire::lemma_be16_round_trip(p.id);
    crate::wire::lemma_be16_round_trip(p.questions.len() as u16);
    crate::wire::lemma_be16_round_trip(p.answers.len() as u16);
    crate::wire::lemma_be16_round_trip(p.nameservers.len() as u16);
    crate::wire::lemma_be16_round_trip(p.addl_recs.len() as u16);
    crate::flags::lemma_flags_round_trip(p.flags);

    assert(be16_val(buf[4], buf[5]) as int == p.questions.len() as int);
    assert(be16_val(buf[6], buf[7]) as int == p.answers.len() as int);
    assert(be16_val(buf[8], buf[9]) as int == p.nameservers.len() as int);
    assert(be16_val(buf[10], buf[11]) as int == p.addl_recs.len() as int);

    let q0 = 12int;
    let a0 = q0 + eq.len() as int;
    let n0 = a0 + ea.len() as int;
    let r0 = n0 + en.len() as int;
    let r1 = r0 + er.len() as int;

    assert(buf.subrange(q0, a0) =~= eq) by {
        assert forall|k: int| 0 <= k < eq.len() implies buf.subrange(q0, a0)[k] == eq[k] by {
            assert(buf[12 + k] == eq[k]);
        }
    };
    assert(buf.subrange(a0, n0) =~= ea) by {
        assert forall|k: int| 0 <= k < ea.len() implies buf.subrange(a0, n0)[k] == ea[k] by {
            assert(buf[a0 + k] == ea[k]);
        }
    };
    assert(buf.subrange(n0, r0) =~= en) by {
        assert forall|k: int| 0 <= k < en.len() implies buf.subrange(n0, r0)[k] == en[k] by {
            assert(buf[n0 + k] == en[k]);
        }
    };
    assert(buf.subrange(r0, r1) =~= er) by {
        assert forall|k: int| 0 <= k < er.len() implies buf.subrange(r0, r1)[k] == er[k] by {
            assert(buf[r0 + k] == er[k]);
        }
    };

    lemma_questions_round_trip_at(buf, q0, p.questions);
    lemma_records_round_trip_at(buf, a0, p.answers);
    lemma_records_round_trip_at(buf, n0, p.nameservers);
    lemma_records_round_trip_at(buf, r0, p.addl_recs);

    assert(spec_decode_packet(buf) matches Ok(res) && res =~= p);
}


/// An unassigned record-type value is rejected, not defaulted: whenever
/// the 16-bit type field of an otherwise readable record holds a value
/// outside the registry, the record fails with `UnknownEnumValue`.
pub proof fn lemma_unknown_rr_type_rejected(buf: Seq<u8>, pos: int)
    requires
        spec_decode_name(buf, pos) matches Ok(nr) && nr.1 + 10 <= buf.len()
            && DnsRRType::of_code(be16_val(buf[nr.1], buf[nr.1 + 1])) is None,
    ensures
        spec_decode_record(buf, pos) == Err::<(RecordModel, int), DecodeError>(
            DecodeError::UnknownEnumValue,
        ),
{
}

} // verus!
