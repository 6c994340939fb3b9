//! Signed course-completion certificates and the learning-event audit trail.
//!
//! Every learner event is captured in a record chained to its predecessor by
//! `prev_hash`. Each record is hashed with FNV-1a over a canonical byte layout
//! and signed by the issuing institution. Signing and checking signatures is
//! done by the caller with the institution's key pair: this module carries
//! the signature and the public key as they come, and is told whether a
//! signature verifies.

use vstd::prelude::*;
use vstd::bytes::{
    lemma_auto_spec_u32_to_from_le_bytes, lemma_auto_spec_u64_to_from_le_bytes,
    spec_u32_from_le_bytes, spec_u32_to_le_bytes, spec_u64_from_le_bytes, spec_u64_to_le_bytes,
    u32_to_le_bytes, u64_to_le_bytes,
};
use vstd::utf8::{encode_utf8, encode_utf8_decode_utf8};

use crate::text::{push_bytes, str_eq, utf8_of};

verus! {

/// FNV-1a offset basis (64 bits).
pub const FNV_OFFSET_BASIS: u64 = 0xcbf2_9ce4_8422_2325;

/// FNV-1a prime (64 bits).
pub const FNV_PRIME: u64 = 0x0000_0100_0000_01b3;

/// The learning event captured in the trail.
#[derive(Debug, Clone, Copy, PartialEq, Eq, Hash, Structural)]
pub enum LearningEventKind {
    /// A learner enrolled in a course.
    Enrolled,
    /// A learning module was completed.
    ModuleCompleted,
    /// A quiz or assessment attempt was recorded.
    QuizAttempt,
    /// A certificate was issued to the learner.
    CertificateIssued,
    /// A previously issued certificate was revoked.
    CertificateRevoked,
    /// The learner withdrew from the course.
    Withdrawn,
}

/// The short code of an event kind used in the canonical layout.
pub open spec fn kind_code(k: LearningEventKind) -> Seq<char> {
    match k {
        LearningEventKind::Enrolled => "ENROL"@,
        LearningEventKind::ModuleCompleted => "MOD"@,
        LearningEventKind::QuizAttempt => "QUIZ"@,
        LearningEventKind::CertificateIssued => "CERT"@,
        LearningEventKind::CertificateRevoked => "REVOKE"@,
        LearningEventKind::Withdrawn => "WDR"@,
    }
}

impl LearningEventKind {
    /// Short code used in canonical serialization.
    pub fn code(&self) -> (c: &'static str)
        ensures
            c@ == kind_code(*self),
    {
        match self {
            LearningEventKind::Enrolled => "ENROL",
            LearningEventKind::ModuleCompleted => "MOD",
            LearningEventKind::QuizAttempt => "QUIZ",
            LearningEventKind::CertificateIssued => "CERT",
            LearningEventKind::CertificateRevoked => "REVOKE",
            LearningEventKind::Withdrawn => "WDR",
        }
    }
}

/// One learning event ready to be signed.
///
/// Score is expressed as basis points 0..=10_000 (100.00 % = 10_000).
#[derive(Debug, Clone, PartialEq, Eq)]
pub struct LearningRecord {
    /// Monotonic sequence number.
    pub seq: u64,
    /// Kind of event.
    pub kind: LearningEventKind,
    /// Unix nanosecond timestamp.
    pub timestamp_ns: u64,
    /// Learner identifier (student id, email, DID).
    pub learner_id: String,
    /// Course identifier.
    pub course_id: String,
    /// Optional module / assessment identifier (empty when not applicable).
    pub module_id: String,
    /// Score in basis points (0..=10_000), or 0 when not applicable.
    pub score_bps: u32,
    /// Certificate identifier (empty unless a certificate is issued or revoked).
    pub certificate_id: String,
    /// Free-form detail (issuing institution, remarks).
    pub detail: String,
    /// Hash of the previous record (0 for the first one).
    pub prev_hash: u64,
}

/// The canonical byte layout of a record: the fixed-width integers little
/// endian, each text as UTF-8 followed by a zero byte (the kind by its code).
pub open spec fn canonical(r: LearningRecord) -> Seq<u8> {
    spec_u64_to_le_bytes(r.seq) + utf8_of(kind_code(r.kind)) + seq![0u8] + spec_u64_to_le_bytes(
        r.timestamp_ns,
    ) + utf8_of(r.learner_id@) + seq![0u8] + utf8_of(r.course_id@) + seq![0u8] + utf8_of(
        r.module_id@,
    ) + seq![0u8] + spec_u32_to_le_bytes(r.score_bps) + utf8_of(r.certificate_id@) + seq![0u8]
        + utf8_of(r.detail@) + seq![0u8] + spec_u64_to_le_bytes(r.prev_hash)
}

/// The 64-bit FNV-1a hash of `bytes`.
pub open spec fn fnv1a(bytes: Seq<u8>) -> u64
    decreases bytes.len(),
{
    if bytes.len() == 0 {
        FNV_OFFSET_BASIS
    } else {
        (fnv1a(bytes.drop_last()) ^ (bytes.last() as u64)).wrapping_mul(FNV_PRIME)
    }
}

/// The hash of a record: FNV-1a of its canonical bytes.
pub open spec fn record_hash(r: LearningRecord) -> u64 {
    fnv1a(canonical(r))
}

fn append_zero(buf: &mut Vec<u8>)
    ensures
        final(buf)@ == old(buf)@ + seq![0u8],
{
    buf.push(0);
    assert(buf@ == old(buf)@ + seq![0u8]);
}

impl LearningRecord {
    /// Canonical byte layout used for hashing and signing.
    pub fn canonical_bytes(&self) -> (b: Vec<u8>)
        ensures
            b@ == canonical(*self),
    {
        let mut buf: Vec<u8> = Vec::with_capacity(200);
        let mut x = u64_to_le_bytes(self.seq);
        buf.append(&mut x);
        push_bytes(&mut buf, self.kind.code().as_bytes());
        append_zero(&mut buf);
        let mut x = u64_to_le_bytes(self.timestamp_ns);
        buf.append(&mut x);
        push_bytes(&mut buf, self.learner_id.as_str().as_bytes());
        append_zero(&mut buf);
        push_bytes(&mut buf, self.course_id.as_str().as_bytes());
        append_zero(&mut buf);
        push_bytes(&mut buf, self.module_id.as_str().as_bytes());
        append_zero(&mut buf);
        let mut x = u32_to_le_bytes(self.score_bps);
        buf.append(&mut x);
        push_bytes(&mut buf, self.certificate_id.as_str().as_bytes());
        append_zero(&mut buf);
        push_bytes(&mut buf, self.detail.as_str().as_bytes());
        append_zero(&mut buf);
        let mut x = u64_to_le_bytes(self.prev_hash);
        buf.append(&mut x);
        buf
    }

    /// `FNV-1a` hash of the canonical byte layout.
    pub fn hash(&self) -> (h: u64)
        ensures
            h == record_hash(*self),
    {
        let bytes = self.canonical_bytes();
        let mut h: u64 = FNV_OFFSET_BASIS;
        let n = bytes.len();
        for i in 0..n
            invariant
                n == bytes@.len(),
                h == fnv1a(bytes@.take(i as int)),
        {
            assert(bytes@.take(i + 1).drop_last() == bytes@.take(i as int));
            h = h ^ (bytes[i] as u64);
            h = h.wrapping_mul(FNV_PRIME);
        }
        assert(bytes@.take(n as int) == bytes@);
        h
    }
}

/// Two byte sequences that differ only in a middle part differ.
proof fn lemma_middle_differs(x: Seq<u8>, a: Seq<u8>, b: Seq<u8>, y: Seq<u8>)
    requires
        a != b,
    ensures
        x + a + y != x + b + y,
{
    if a.len() == b.len() {
        if forall|i: int| 0 <= i < a.len() ==> a[i] == b[i] {
            assert(a =~= b);
        }
        let i = choose|i: int| 0 <= i < a.len() && a[i] != b[i];
        assert((x + a + y)[x.len() + i] == a[i]);
        assert((x + b + y)[x.len() + i] == b[i]);
    } else {
        assert((x + a + y).len() != (x + b + y).len());
    }
}

proof fn lemma_u64_bytes_differ(a: u64, b: u64)
    requires
        a != b,
    ensures
        spec_u64_to_le_bytes(a) != spec_u64_to_le_bytes(b),
{
    lemma_auto_spec_u64_to_from_le_bytes();
    assert(spec_u64_from_le_bytes(spec_u64_to_le_bytes(a)) == a);
    assert(spec_u64_from_le_bytes(spec_u64_to_le_bytes(b)) == b);
}

proof fn lemma_u32_bytes_differ(a: u32, b: u32)
    requires
        a != b,
    ensures
        spec_u32_to_le_bytes(a) != spec_u32_to_le_bytes(b),
{
    lemma_auto_spec_u32_to_from_le_bytes();
    assert(spec_u32_to_le_bytes(a).len() == 4);
    assert(spec_u32_to_le_bytes(b).len() == 4);
    assert(spec_u32_from_le_bytes(spec_u32_to_le_bytes(a)) == a);
    assert(spec_u32_from_le_bytes(spec_u32_to_le_bytes(b)) == b);
}

proof fn lemma_text_bytes_differ(a: Seq<char>, b: Seq<char>)
    requires
        a != b,
    ensures
        encode_utf8(a) != encode_utf8(b),
{
    encode_utf8_decode_utf8(a);
    encode_utf8_decode_utf8(b);
}

/// The canonical layout starts with the sequence number and ends with the
/// link to the previous record, each as 8 little-endian bytes, and its length
/// is that of its parts: three 8-byte integers, one 4-byte integer, the kind
/// code and the five texts as UTF-8, and six zero separators.
pub proof fn law_canonical_layout(r: LearningRecord)
    ensures
        canonical(r).len() == 28 + encode_utf8(kind_code(r.kind)).len() + encode_utf8(r.learner_id@).len()
            + encode_utf8(r.course_id@).len() + encode_utf8(r.module_id@).len() + encode_utf8(
            r.certificate_id@,
        ).len() + encode_utf8(r.detail@).len() + 6,
        canonical(r).take(8) == spec_u64_to_le_bytes(r.seq),
        canonical(r).skip(canonical(r).len() - 8) == spec_u64_to_le_bytes(r.prev_hash),
        spec_u64_from_le_bytes(canonical(r).take(8)) == r.seq,
        spec_u64_from_le_bytes(canonical(r).skip(canonical(r).len() - 8)) == r.prev_hash,
{
    lemma_auto_spec_u64_to_from_le_bytes();
    lemma_auto_spec_u32_to_from_le_bytes();
    let c = canonical(r);
    let head = spec_u64_to_le_bytes(r.seq);
    let tail = spec_u64_to_le_bytes(r.prev_hash);
    assert(head.len() == 8 && tail.len() == 8);
    assert(c.take(8) =~= head);
    assert(c.skip(c.len() - 8) =~= tail);
}

/// The canonical bytes cover the link to the previous record: records that
/// differ only in `prev_hash` have different canonical bytes.
pub proof fn law_canonical_covers_prev_hash(r: LearningRecord, prev_hash: u64)
    requires
        prev_hash != r.prev_hash,
    ensures
        canonical(LearningRecord { prev_hash, ..r }) != canonical(r),
{
    let r2 = LearningRecord { prev_hash, ..r };
    lemma_u64_bytes_differ(prev_hash, r.prev_hash);
    let x = canonical(r).take(canonical(r).len() - 8);
    lemma_auto_spec_u64_to_from_le_bytes();
    assert(canonical(r) =~= x + spec_u64_to_le_bytes(r.prev_hash) + Seq::<u8>::empty());
    assert(canonical(r2) =~= x + spec_u64_to_le_bytes(prev_hash) + Seq::<u8>::empty());
    lemma_middle_differs(x, spec_u64_to_le_bytes(prev_hash), spec_u64_to_le_bytes(r.prev_hash), Seq::<u8>::empty());
}

/// The canonical bytes cover the sequence number.
pub proof fn law_canonical_covers_seq(r: LearningRecord, seq: u64)
    requires
        seq != r.seq,
    ensures
        canonical(LearningRecord { seq, ..r }) != canonical(r),
{
    let r2 = LearningRecord { seq, ..r };
    lemma_u64_bytes_differ(seq, r.seq);
    lemma_auto_spec_u64_to_from_le_bytes();
    let y = canonical(r).skip(8);
    assert(canonical(r) =~= Seq::<u8>::empty() + spec_u64_to_le_bytes(r.seq) + y);
    assert(canonical(r2) =~= Seq::<u8>::empty() + spec_u64_to_le_bytes(seq) + y);
    lemma_middle_differs(Seq::<u8>::empty(), spec_u64_to_le_bytes(seq), spec_u64_to_le_bytes(r.seq), y);
}

/// The canonical bytes cover the timestamp.
#[verifier::rlimit(60)]
pub proof fn law_canonical_covers_timestamp(r: LearningRecord, timestamp_ns: u64)
    requires
        timestamp_ns != r.timestamp_ns,
    ensures
        canonical(LearningRecord { timestamp_ns, ..r }) != canonical(r),
{
    let r2 = LearningRecord { timestamp_ns, ..r };
    lemma_u64_bytes_differ(timestamp_ns, r.timestamp_ns);
    let x = spec_u64_to_le_bytes(r.seq) + utf8_of(kind_code(r.kind)) + seq![0u8];
    let y = utf8_of(r.learner_id@) + seq![0u8] + utf8_of(r.course_id@) + seq![0u8] + utf8_of(
        r.module_id@,
    ) + seq![0u8] + spec_u32_to_le_bytes(r.score_bps) + utf8_of(r.certificate_id@) + seq![0u8]
        + utf8_of(r.detail@) + seq![0u8] + spec_u64_to_le_bytes(r.prev_hash);
    assert(canonical(r) =~= x + spec_u64_to_le_bytes(r.timestamp_ns) + y);
    assert(canonical(r2) =~= x + spec_u64_to_le_bytes(timestamp_ns) + y);
    lemma_middle_differs(x, spec_u64_to_le_bytes(timestamp_ns), spec_u64_to_le_bytes(r.timestamp_ns), y);
}

/// The canonical bytes cover the score.
pub proof fn law_canonical_covers_score(r: LearningRecord, score_bps: u32)
    requires
        score_bps != r.score_bps,
    ensures
        canonical(LearningRecord { score_bps, ..r }) != canonical(r),
{
    let r2 = LearningRecord { score_bps, ..r };
    lemma_u32_bytes_differ(score_bps, r.score_bps);
    let x = spec_u64_to_le_bytes(r.seq) + utf8_of(kind_code(r.kind)) + seq![0u8] + spec_u64_to_le_bytes(
        r.timestamp_ns,
    ) + utf8_of(r.learner_id@) + seq![0u8] + utf8_of(r.course_id@) + seq![0u8] + utf8_of(
        r.module_id@,
    ) + seq![0u8];
    let y = utf8_of(r.certificate_id@) + seq![0u8] + utf8_of(r.detail@) + seq![0u8]
        + spec_u64_to_le_bytes(r.prev_hash);
    assert(canonical(r) =~= x + spec_u32_to_le_bytes(r.score_bps) + y);
    assert(canonical(r2) =~= x + spec_u32_to_le_bytes(score_bps) + y);
    lemma_middle_differs(x, spec_u32_to_le_bytes(score_bps), spec_u32_to_le_bytes(r.score_bps), y);
}

/// The canonical bytes cover the kind of event.
#[verifier::rlimit(60)]
pub proof fn law_canonical_covers_kind(r: LearningRecord, kind: LearningEventKind)
    requires
        kind != r.kind,
    ensures
        canonical(LearningRecord { kind, ..r }) != canonical(r),
{
    let r2 = LearningRecord { kind, ..r };
    reveal_strlit("ENROL");
    reveal_strlit("MOD");
    reveal_strlit("QUIZ");
    reveal_strlit("CERT");
    reveal_strlit("REVOKE");
    reveal_strlit("WDR");
    assert(kind_code(kind) != kind_code(r.kind)) by {
        if kind_code(kind) == kind_code(r.kind) {
            let a = kind_code(kind);
            assert(a.len() == kind_code(r.kind).len());
            assert(a[0] == kind_code(r.kind)[0]);
            assert(a[a.len() - 1] == kind_code(r.kind)[a.len() - 1]);
        }
    }
    lemma_text_bytes_differ(kind_code(kind), kind_code(r.kind));
    let x = spec_u64_to_le_bytes(r.seq);
    let y = seq![0u8] + spec_u64_to_le_bytes(r.timestamp_ns) + utf8_of(r.learner_id@) + seq![0u8]
        + utf8_of(r.course_id@) + seq![0u8] + utf8_of(r.module_id@) + seq![0u8] + spec_u32_to_le_bytes(
        r.score_bps,
    ) + utf8_of(r.certificate_id@) + seq![0u8] + utf8_of(r.detail@) + seq![0u8]
        + spec_u64_to_le_bytes(r.prev_hash);
    assert(canonical(r) =~= x + utf8_of(kind_code(r.kind)) + y);
    assert(canonical(r2) =~= x + utf8_of(kind_code(kind)) + y);
    lemma_middle_differs(x, utf8_of(kind_code(kind)), utf8_of(kind_code(r.kind)), y);
}

/// The canonical bytes cover the learner.
pub proof fn law_canonical_covers_learner(r: LearningRecord, learner_id: String)
    requires
        learner_id@ != r.learner_id@,
    ensures
        canonical(LearningRecord { learner_id, ..r }) != canonical(r),
{
    let r2 = LearningRecord { learner_id, ..r };
    lemma_text_bytes_differ(learner_id@, r.learner_id@);
    let x = spec_u64_to_le_bytes(r.seq) + utf8_of(kind_code(r.kind)) + seq![0u8] + spec_u64_to_le_bytes(
        r.timestamp_ns,
    );
    let y = seq![0u8] + utf8_of(r.course_id@) + seq![0u8] + utf8_of(r.module_id@) + seq![0u8]
        + spec_u32_to_le_bytes(r.score_bps) + utf8_of(r.certificate_id@) + seq![0u8] + utf8_of(
        r.detail@,
    ) + seq![0u8] + spec_u64_to_le_bytes(r.prev_hash);
    assert(canonical(r) =~= x + utf8_of(r.learner_id@) + y);
    assert(canonical(r2) =~= x + utf8_of(learner_id@) + y);
    lemma_middle_differs(x, utf8_of(learner_id@), utf8_of(r.learner_id@), y);
}

/// The canonical bytes cover the course.
pub proof fn law_canonical_covers_course(r: LearningRecord, course_id: String)
    requires
        course_id@ != r.course_id@,
    ensures
        canonical(LearningRecord { course_id, ..r }) != canonical(r),
{
    let r2 = LearningRecord { course_id, ..r };
    lemma_text_bytes_differ(course_id@, r.course_id@);
    let x = spec_u64_to_le_bytes(r.seq) + utf8_of(kind_code(r.kind)) + seq![0u8] + spec_u64_to_le_bytes(
        r.timestamp_ns,
    ) + utf8_of(r.learner_id@) + seq![0u8];
    let y = seq![0u8] + utf8_of(r.module_id@) + seq![0u8] + spec_u32_to_le_bytes(r.score_bps)
        + utf8_of(r.certificate_id@) + seq![0u8] + utf8_of(r.detail@) + seq![0u8]
        + spec_u64_to_le_bytes(r.prev_hash);
    assert(canonical(r) =~= x + utf8_of(r.course_id@) + y);
    assert(canonical(r2) =~= x + utf8_of(course_id@) + y);
    lemma_middle_differs(x, utf8_of(course_id@), utf8_of(r.course_id@), y);
}

/// The canonical bytes cover the module or assessment.
pub proof fn law_canonical_covers_module(r: LearningRecord, module_id: String)
    requires
        module_id@ != r.module_id@,
    ensures
        canonical(LearningRecord { module_id, ..r }) != canonical(r),
{
    let r2 = LearningRecord { module_id, ..r };
    lemma_text_bytes_differ(module_id@, r.module_id@);
    let x = spec_u64_to_le_bytes(r.seq) + utf8_of(kind_code(r.kind)) + seq![0u8] + spec_u64_to_le_bytes(
        r.timestamp_ns,
    ) + utf8_of(r.learner_id@) + seq![0u8] + utf8_of(r.course_id@) + seq![0u8];
    let y = seq![0u8] + spec_u32_to_le_bytes(r.score_bps) + utf8_of(r.certificate_id@) + seq![0u8]
        + utf8_of(r.detail@) + seq![0u8] + spec_u64_to_le_bytes(r.prev_hash);
    assert(canonical(r) =~= x + utf8_of(r.module_id@) + y);
    assert(canonical(r2) =~= x + utf8_of(module_id@) + y);
    lemma_middle_differs(x, utf8_of(module_id@), utf8_of(r.module_id@), y);
}

/// The canonical bytes cover the certificate.
pub proof fn law_canonical_covers_certificate(r: LearningRecord, certificate_id: String)
    requires
        certificate_id@ != r.certificate_id@,
    ensures
        canonical(LearningRecord { certificate_id, ..r }) != canonical(r),
{
    let r2 = LearningRecord { certificate_id, ..r };
    lemma_text_bytes_differ(certificate_id@, r.certificate_id@);
    let x = spec_u64_to_le_bytes(r.seq) + utf8_of(kind_code(r.kind)) + seq![0u8] + spec_u64_to_le_bytes(
        r.timestamp_ns,
    ) + utf8_of(r.learner_id@) + seq![0u8] + utf8_of(r.course_id@) + seq![0u8] + utf8_of(
        r.module_id@,
    ) + seq![0u8] + spec_u32_to_le_bytes(r.score_bps);
    let y = seq![0u8] + utf8_of(r.detail@) + seq![0u8] + spec_u64_to_le_bytes(r.prev_hash);
    assert(canonical(r) =~= x + utf8_of(r.certificate_id@) + y);
    assert(canonical(r2) =~= x + utf8_of(certificate_id@) + y);
    lemma_middle_differs(x, utf8_of(certificate_id@), utf8_of(r.certificate_id@), y);
}

/// The canonical bytes cover the detail.
pub proof fn law_canonical_covers_detail(r: LearningRecord, detail: String)
    requires
        detail@ != r.detail@,
    ensures
        canonical(LearningRecord { detail, ..r }) != canonical(r),
{
    let r2 = LearningRecord { detail, ..r };
    lemma_text_bytes_differ(detail@, r.detail@);
    let x = spec_u64_to_le_bytes(r.seq) + utf8_of(kind_code(r.kind)) + seq![0u8] + spec_u64_to_le_bytes(
        r.timestamp_ns,
    ) + utf8_of(r.learner_id@) + seq![0u8] + utf8_of(r.course_id@) + seq![0u8] + utf8_of(
        r.module_id@,
    ) + seq![0u8] + spec_u32_to_le_bytes(r.score_bps) + utf8_of(r.certificate_id@) + seq![0u8];
    let y = seq![0u8] + spec_u64_to_le_bytes(r.prev_hash);
    assert(canonical(r) =~= x + utf8_of(r.detail@) + y);
    assert(canonical(r2) =~= x + utf8_of(detail@) + y);
    lemma_middle_differs(x, utf8_of(detail@), utf8_of(r.detail@), y);
}

/// The record hash is 64-bit FNV-1a over the canonical bytes: it starts
/// from the offset basis 0xcbf29ce484222325 and, for each byte in order,
/// xors the byte in and multiplies by the prime 0x100000001b3 modulo 2^64.
pub proof fn law_record_hash_is_fnv1a(r: LearningRecord, bytes: Seq<u8>, b: u8)
    ensures
        record_hash(r) == fnv1a(canonical(r)),
        fnv1a(Seq::<u8>::empty()) == 0xcbf2_9ce4_8422_2325u64,
        fnv1a(bytes.push(b)) as int == ((fnv1a(bytes) ^ (b as u64)) as int * 0x0000_0100_0000_01b3)
            % 0x1_0000_0000_0000_0000,
{
    assert(bytes.push(b).drop_last() == bytes);
}

/// A [`LearningRecord`] with its hash, the issuing institution's signature
/// over the record's canonical bytes, and the institution's public key.
/// Signatures and keys are carried as they are and never looked into here.
#[derive(Debug, Clone, PartialEq, Eq)]
pub struct SignedLearningRecord<Sig, Key> {
    /// The wrapped record.
    pub record: LearningRecord,
    /// `FNV-1a` hash of the record's canonical bytes.
    pub hash: u64,
    /// Signature over the canonical bytes.
    pub signature: Sig,
    /// Institution's public key.
    pub issuer: Key,
}

impl<Sig, Key> SignedLearningRecord<Sig, Key> {
    /// Whether the stored hash is the hash of the record.
    pub fn hash_matches(&self) -> (b: bool)
        ensures
            b == (self.hash == record_hash(self.record)),
    {
        self.hash == self.record.hash()
    }

    /// Verifies hash consistency and the signature: `signature_valid` says
    /// whether `issuer` accepts `signature` over the record's canonical bytes.
    pub fn verify(&self, signature_valid: bool) -> (b: bool)
        ensures
            b == (self.hash == record_hash(self.record) && signature_valid),
    {
        if !self.hash_matches() {
            return false;
        }
        signature_valid
    }
}

/// The hash the next record must chain to: that of the last entry, 0 when empty.
pub open spec fn tail_hash_of<Sig, Key>(entries: Seq<SignedLearningRecord<Sig, Key>>) -> u64 {
    if entries.len() == 0 {
        0
    } else {
        entries.last().hash
    }
}

/// The hash entry `i` must chain to.
pub open spec fn expected_prev<Sig, Key>(entries: Seq<SignedLearningRecord<Sig, Key>>, i: int) -> u64 {
    if i == 0 {
        0
    } else {
        entries[i - 1].hash
    }
}

/// Entry `i` is in place: its sequence number is its position, it chains to
/// its predecessor, its hash is that of its record and its signature verifies.
pub open spec fn entry_intact<Sig, Key>(
    entries: Seq<SignedLearningRecord<Sig, Key>>,
    signature_valid: Seq<bool>,
    i: int,
) -> bool {
    &&& (entries[i].record.seq as usize) as int == i
    &&& entries[i].record.prev_hash == expected_prev(entries, i)
    &&& entries[i].hash == record_hash(entries[i].record)
    &&& signature_valid[i]
}

/// Every entry of the trail is in place.
pub open spec fn chain_intact<Sig, Key>(entries: Seq<SignedLearningRecord<Sig, Key>>, signature_valid: Seq<bool>) -> bool {
    forall|i: int| 0 <= i < entries.len() ==> #[trigger] entry_intact(entries, signature_valid, i)
}

/// Whether, after the events in `entries`, the certificate `certificate_id`
/// stands issued: the last issue or revocation event for it decides, and a
/// certificate with neither stands not issued.
pub open spec fn certificate_issued<Sig, Key>(entries: Seq<SignedLearningRecord<Sig, Key>>, certificate_id: Seq<char>) -> bool
    decreases entries.len(),
{
    if entries.len() == 0 {
        false
    } else {
        let before = certificate_issued(entries.drop_last(), certificate_id);
        let r = entries.last().record;
        if r.certificate_id@ != certificate_id {
            before
        } else {
            match r.kind {
                LearningEventKind::CertificateIssued => true,
                LearningEventKind::CertificateRevoked => false,
                _ => before,
            }
        }
    }
}

/// The learner identifiers of `entries`, each once, in order of first appearance.
pub open spec fn distinct_learners<Sig, Key>(entries: Seq<SignedLearningRecord<Sig, Key>>) -> Seq<Seq<char>>
    decreases entries.len(),
{
    if entries.len() == 0 {
        Seq::empty()
    } else {
        let before = distinct_learners(entries.drop_last());
        let l = entries.last().record.learner_id@;
        if before.contains(l) {
            before
        } else {
            before.push(l)
        }
    }
}

/// The test "is an event of kind `kind` on course `course_id`".
pub open spec fn is_kind_on_course<Sig, Key>(course_id: Seq<char>, kind: LearningEventKind) -> spec_fn(
    SignedLearningRecord<Sig, Key>,
) -> bool {
    |e: SignedLearningRecord<Sig, Key>| e.record.course_id@ == course_id && e.record.kind == kind
}

/// Appending the next record, hashed and with a signature that verifies,
/// to an intact trail leaves the trail intact.
pub proof fn law_append_keeps_trail_intact<Sig, Key>(
    entries: Seq<SignedLearningRecord<Sig, Key>>,
    signature_valid: Seq<bool>,
    record: LearningRecord,
    signature: Sig,
    issuer: Key,
)
    requires
        chain_intact(entries, signature_valid),
        signature_valid.len() == entries.len(),
        entries.len() < usize::MAX,
        record.seq as int == entries.len(),
        record.prev_hash == tail_hash_of(entries),
    ensures
        chain_intact(
            entries.push(SignedLearningRecord { record, hash: record_hash(record), signature, issuer }),
            signature_valid.push(true),
        ),
{
    let e = SignedLearningRecord { record, hash: record_hash(record), signature, issuer };
    let t = entries.push(e);
    let v = signature_valid.push(true);
    assert forall|i: int| 0 <= i < t.len() implies #[trigger] entry_intact(t, v, i) by {
        if i < entries.len() {
            assert(entry_intact(entries, signature_valid, i));
            assert(t[i] == entries[i]);
            if i > 0 {
                assert(t[i - 1] == entries[i - 1]);
            }
        }
    }
}

/// An entry whose signature does not verify breaks the trail, wherever it
/// stands.
pub proof fn law_bad_signature_breaks_trail<Sig, Key>(
    entries: Seq<SignedLearningRecord<Sig, Key>>,
    signature_valid: Seq<bool>,
    i: int,
)
    requires
        0 <= i < entries.len(),
        i < signature_valid.len(),
        !signature_valid[i],
    ensures
        !chain_intact(entries, signature_valid),
{
    assert(!entry_intact(entries, signature_valid, i));
}

/// In an intact trail every entry is numbered by its position, links to its
/// predecessor's hash (the first to 0), carries its record's hash, and has a
/// signature that verifies.
pub proof fn law_intact_trail_entries<Sig, Key>(
    entries: Seq<SignedLearningRecord<Sig, Key>>,
    signature_valid: Seq<bool>,
    i: int,
)
    requires
        chain_intact(entries, signature_valid),
        0 <= i < entries.len(),
    ensures
        signature_valid[i],
        (entries[i].record.seq as usize) as int == i,
        entries[i].hash == record_hash(entries[i].record),
        i == 0 ==> entries[i].record.prev_hash == 0,
        i > 0 ==> entries[i].record.prev_hash == entries[i - 1].hash,
{
    assert(entry_intact(entries, signature_valid, i));
}

/// An entry whose number is not its position, whose link is not its
/// predecessor's hash, or whose hash is not that of its record breaks the
/// trail, whatever the signatures.
pub proof fn law_tampered_entry_breaks_trail<Sig, Key>(
    entries: Seq<SignedLearningRecord<Sig, Key>>,
    signature_valid: Seq<bool>,
    i: int,
)
    requires
        0 <= i < entries.len(),
        (entries[i].record.seq as usize) as int != i || entries[i].record.prev_hash
            != expected_prev(entries, i) || entries[i].hash != record_hash(entries[i].record),
    ensures
        !chain_intact(entries, signature_valid),
{
    assert(!entry_intact(entries, signature_valid, i));
}

/// The latest issue or revocation event for a certificate decides whether
/// it stands: an issue makes it valid, a revocation invalid, and any other
/// event leaves it as it was.
pub proof fn law_latest_certificate_event_decides<Sig, Key>(
    entries: Seq<SignedLearningRecord<Sig, Key>>,
    e: SignedLearningRecord<Sig, Key>,
    certificate_id: Seq<char>,
)
    ensures
        !certificate_issued(Seq::<SignedLearningRecord<Sig, Key>>::empty(), certificate_id),
        certificate_issued(entries.push(e), certificate_id) == (if e.record.certificate_id@
            == certificate_id && e.record.kind == LearningEventKind::CertificateIssued {
            true
        } else if e.record.certificate_id@ == certificate_id && e.record.kind
            == LearningEventKind::CertificateRevoked {
            false
        } else {
            certificate_issued(entries, certificate_id)
        }),
{
    assert(entries.push(e).drop_last() == entries);
}

/// The learners of a trail are listed once each, and are exactly the
/// learners of its entries.
pub proof fn law_learners_distinct<Sig, Key>(entries: Seq<SignedLearningRecord<Sig, Key>>)
    ensures
        distinct_learners(entries).no_duplicates(),
        forall|l: Seq<char>|
            #[trigger] distinct_learners(entries).contains(l) <==> exists|i: int|
                0 <= i < entries.len() && entries[i].record.learner_id@ == l,
    decreases entries.len(),
{
    if entries.len() > 0 {
        let before = entries.drop_last();
        law_learners_distinct(before);
        let d = distinct_learners(before);
        let l0 = entries.last().record.learner_id@;
        assert forall|l: Seq<char>| #[trigger] distinct_learners(entries).contains(l) implies exists|i: int|
            0 <= i < entries.len() && entries[i].record.learner_id@ == l by {
            if l != l0 {
                assert(d.contains(l)) by {
                    if !d.contains(l0) {
                        let k = choose|k: int| 0 <= k < d.push(l0).len() && d.push(l0)[k] == l;
                        assert(d[k] == l);
                    }
                }
                let i = choose|i: int| 0 <= i < before.len() && before[i].record.learner_id@ == l;
                assert(entries[i] == before[i]);
            } else {
                assert(entries[entries.len() - 1].record.learner_id@ == l);
            }
        }
        assert forall|l: Seq<char>| (exists|i: int| 0 <= i < entries.len() && entries[i].record.learner_id@ == l)
            implies #[trigger] distinct_learners(entries).contains(l) by {
            let i = choose|i: int| 0 <= i < entries.len() && entries[i].record.learner_id@ == l;
            if i < entries.len() - 1 {
                assert(before[i] == entries[i]);
                assert(d.contains(l));
                if !d.contains(l0) {
                    let k = choose|k: int| 0 <= k < d.len() && d[k] == l;
                    assert(d.push(l0)[k] == l);
                }
            } else {
                if !d.contains(l0) {
                    assert(d.push(l0)[d.len() as int] == l0);
                }
            }
        }
        if !d.contains(l0) {
            assert forall|a: int, b: int| 0 <= a < b < d.len() + 1 implies d.push(l0)[a] != d.push(l0)[b] by {
                if b == d.len() {
                    assert(d[a] != l0);
                }
            }
        }
    }
}

/// Append-only chain of [`SignedLearningRecord`] records.
#[derive(Debug, Clone)]
pub struct CertificateTrail<Sig, Key> {
    entries: Vec<SignedLearningRecord<Sig, Key>>,
}

impl<Sig, Key> View for CertificateTrail<Sig, Key> {
    type V = Seq<SignedLearningRecord<Sig, Key>>;

    closed spec fn view(&self) -> Seq<SignedLearningRecord<Sig, Key>> {
        self.entries@
    }
}

impl<Sig, Key> Default for CertificateTrail<Sig, Key> {
    fn default() -> (t: Self)
        ensures
            t@ == Seq::<SignedLearningRecord<Sig, Key>>::empty(),
    {
        CertificateTrail::new()
    }
}

impl<Sig, Key> CertificateTrail<Sig, Key> {
    /// Construct an empty trail.
    pub fn new() -> (t: Self)
        ensures
            t@ == Seq::<SignedLearningRecord<Sig, Key>>::empty(),
    {
        CertificateTrail { entries: Vec::new() }
    }

    /// Number of entries.
    pub fn len(&self) -> (n: usize)
        ensures
            n == self@.len(),
    {
        self.entries.len()
    }

    /// Whether the trail is empty.
    pub fn is_empty(&self) -> (b: bool)
        ensures
            b == (self@.len() == 0),
    {
        self.entries.len() == 0
    }

    /// Read-only view.
    pub fn entries(&self) -> (s: &[SignedLearningRecord<Sig, Key>])
        ensures
            s@ == self@,
    {
        self.entries.as_slice()
    }

    /// Hash of the last record (0 for empty).
    pub fn tail_hash(&self) -> (h: u64)
        ensures
            h == tail_hash_of(self@),
    {
        let n = self.entries.len();
        if n == 0 {
            0
        } else {
            self.entries[n - 1].hash
        }
    }

    /// The record that appending this event would add: numbered after the
    /// last entry and chained to it. It is to be signed over its canonical
    /// bytes and handed to [`CertificateTrail::append_signed`].
    pub fn next_record(
        &self,
        kind: LearningEventKind,
        timestamp_ns: u64,
        learner_id: &str,
        course_id: &str,
        module_id: &str,
        score_bps: u32,
        certificate_id: &str,
        detail: &str,
    ) -> (r: LearningRecord)
        ensures
            r.seq == self@.len() as u64,
            r.kind == kind,
            r.timestamp_ns == timestamp_ns,
            r.learner_id@ == learner_id@,
            r.course_id@ == course_id@,
            r.module_id@ == module_id@,
            r.score_bps == score_bps,
            r.certificate_id@ == certificate_id@,
            r.detail@ == detail@,
            r.prev_hash == tail_hash_of(self@),
    {
        LearningRecord {
            seq: self.entries.len() as u64,
            kind,
            timestamp_ns,
            learner_id: learner_id.to_owned(),
            course_id: course_id.to_owned(),
            module_id: module_id.to_owned(),
            score_bps,
            certificate_id: certificate_id.to_owned(),
            detail: detail.to_owned(),
            prev_hash: self.tail_hash(),
        }
    }

    /// Appends a signed record. The record must be the next one (numbered
    /// after the last entry and chained to it); otherwise nothing is appended
    /// and `false` is returned.
    pub fn append_signed(&mut self, record: LearningRecord, signature: Sig, issuer: Key) -> (appended: bool)
        ensures
            appended == (record.seq as int == old(self)@.len() && record.prev_hash == tail_hash_of(
                old(self)@,
            )),
            appended ==> final(self)@ == old(self)@.push(
                SignedLearningRecord { record, hash: record_hash(record), signature, issuer },
            ),
            !appended ==> final(self)@ == old(self)@,
    {
        let n = self.entries.len();
        if (n as u64) != record.seq || record.prev_hash != self.tail_hash() {
            return false;
        }
        let hash = record.hash();
        self.entries.push(SignedLearningRecord { record, hash, signature, issuer });
        true
    }

    /// The position of the first entry that is not in place, if any;
    /// `signature_valid[i]` says whether entry `i`'s signature verifies.
    pub fn find_first_tamper(&self, signature_valid: &[bool]) -> (r: Option<usize>)
        requires
            signature_valid@.len() == self@.len(),
        ensures
            match r {
                Some(i) => {
                    &&& i < self@.len()
                    &&& !entry_intact(self@, signature_valid@, i as int)
                    &&& forall|j: int| 0 <= j < i ==> entry_intact(self@, signature_valid@, j)
                },
                None => chain_intact(self@, signature_valid@),
            },
    {
        let mut expected: u64 = 0;
        let n = self.entries.len();
        for i in 0..n
            invariant
                n == self.entries@.len(),
                signature_valid@.len() == n,
                expected == expected_prev(self.entries@, i as int),
                forall|j: int| 0 <= j < i ==> entry_intact(self.entries@, signature_valid@, j),
        {
            let e = &self.entries[i];
            if e.record.seq as usize != i {
                return Some(i);
            }
            if e.record.prev_hash != expected {
                return Some(i);
            }
            if !e.verify(signature_valid[i]) {
                return Some(i);
            }
            expected = e.hash;
        }
        None
    }

    /// Whether the trail is intact.
    pub fn is_valid(&self, signature_valid: &[bool]) -> (b: bool)
        requires
            signature_valid@.len() == self@.len(),
        ensures
            b == chain_intact(self@, signature_valid@),
    {
        match self.find_first_tamper(signature_valid) {
            Some(_) => false,
            None => true,
        }
    }

    /// Whether the given certificate id has been issued **and** not
    /// subsequently revoked.
    pub fn is_certificate_valid(&self, certificate_id: &str) -> (b: bool)
        ensures
            b == certificate_issued(self@, certificate_id@),
    {
        let mut issued = false;
        let n = self.entries.len();
        for i in 0..n
            invariant
                n == self.entries@.len(),
                issued == certificate_issued(self.entries@.take(i as int), certificate_id@),
        {
            assert(self.entries@.take(i + 1).drop_last() == self.entries@.take(i as int));
            let e = &self.entries[i];
            if str_eq(e.record.certificate_id.as_str(), certificate_id) {
                match e.record.kind {
                    LearningEventKind::CertificateIssued => issued = true,
                    LearningEventKind::CertificateRevoked => issued = false,
                    _ => {},
                }
            }
        }
        assert(self.entries@.take(n as int) == self.entries@);
        issued
    }

    /// All distinct learner ids seen in the trail, in order of first appearance.
    pub fn learners(&self) -> (out: Vec<String>)
        ensures
            out@.map_values(|s: String| s@) == distinct_learners(self@),
    {
        let mut out: Vec<String> = Vec::new();
        let n = self.entries.len();
        for i in 0..n
            invariant
                n == self.entries@.len(),
                out@.map_values(|s: String| s@) == distinct_learners(self.entries@.take(i as int)),
        {
            assert(self.entries@.take(i + 1).drop_last() == self.entries@.take(i as int));
            let id = &self.entries[i].record.learner_id;
            let ghost seen = out@.map_values(|s: String| s@);
            let mut found = false;
            let m = out.len();
            for j in 0..m
                invariant
                    m == out@.len(),
                    seen == out@.map_values(|s: String| s@),
                    found == (exists|k: int| 0 <= k < j && seen[k] == id@),
            {
                assert(seen[j as int] == out@[j as int]@);
                if str_eq(out[j].as_str(), id.as_str()) {
                    found = true;
                }
            }
            if found {
                assert(seen.contains(id@));
            } else {
                out.push(id.clone());
                assert(out@.map_values(|s: String| s@) == seen.push(id@));
            }
        }
        assert(self.entries@.take(n as int) == self.entries@);
        out
    }

    /// Count events of the given kind on the given course.
    pub fn count_kind_for_course(&self, course_id: &str, kind: LearningEventKind) -> (c: usize)
        ensures
            c == self@.filter(is_kind_on_course::<Sig, Key>(course_id@, kind)).len(),
    {
        let ghost pred = is_kind_on_course::<Sig, Key>(course_id@, kind);
        let mut count: usize = 0;
        let n = self.entries.len();
        for i in 0..n
            invariant
                n == self.entries@.len(),
                pred == is_kind_on_course::<Sig, Key>(course_id@, kind),
                count == self.entries@.take(i as int).filter(pred).len(),
                count <= i,
        {
            let e = &self.entries[i];
            proof {
                assert(self.entries@.take(i + 1) == self.entries@.take(i as int).push(*e));
                self.entries@.take(i as int).lemma_filter_push(*e, pred);
            }
            if str_eq(e.record.course_id.as_str(), course_id) && e.record.kind == kind {
                count = count + 1;
            }
        }
        assert(self.entries@.take(n as int) == self.entries@);
        count
    }
}

} // verus!
