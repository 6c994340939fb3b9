use alice_lms::signed_certificate::{
    CertificateTrail, LearningEventKind, LearningRecord, SignedLearningRecord,
};

// Signatures are produced and checked by the caller with the institution's
// key pair; these tests stand in fixed bytes for them and say directly
// whether each signature verifies.
const SIGNATURE: [u8; 4] = [1, 2, 3, 4];
const ISSUER: [u8; 4] = [9, 9, 9, 9];

type Trail = CertificateTrail<Vec<u8>, Vec<u8>>;

fn append(
    trail: &mut Trail,
    kind: LearningEventKind,
    timestamp_ns: u64,
    learner_id: &str,
    course_id: &str,
    module_id: &str,
    score_bps: u32,
    certificate_id: &str,
    detail: &str,
) {
    let record = trail.next_record(
        kind,
        timestamp_ns,
        learner_id,
        course_id,
        module_id,
        score_bps,
        certificate_id,
        detail,
    );
    assert!(trail.append_signed(record, SIGNATURE.to_vec(), ISSUER.to_vec()));
}

fn all_verify(trail: &Trail) -> Vec<bool> {
    vec![true; trail.len()]
}

#[test]
fn kind_code_is_stable() {
    assert_eq!(LearningEventKind::Enrolled.code(), "ENROL");
    assert_eq!(LearningEventKind::ModuleCompleted.code(), "MOD");
    assert_eq!(LearningEventKind::QuizAttempt.code(), "QUIZ");
    assert_eq!(LearningEventKind::CertificateIssued.code(), "CERT");
    assert_eq!(LearningEventKind::CertificateRevoked.code(), "REVOKE");
    assert_eq!(LearningEventKind::Withdrawn.code(), "WDR");
}

#[test]
fn canonical_bytes_are_deterministic() {
    let r = LearningRecord {
        seq: 0,
        kind: LearningEventKind::CertificateIssued,
        timestamp_ns: 1,
        learner_id: String::from("L-001"),
        course_id: String::from("C-INTRO"),
        module_id: String::new(),
        score_bps: 8500,
        certificate_id: String::from("CERT-1"),
        detail: String::from("Introduction to ALICE"),
        prev_hash: 0,
    };
    assert_eq!(r.canonical_bytes(), r.canonical_bytes());
}

#[test]
fn hash_differs_when_score_changes() {
    let mut r = LearningRecord {
        seq: 0,
        kind: LearningEventKind::QuizAttempt,
        timestamp_ns: 1,
        learner_id: String::from("L-001"),
        course_id: String::from("C-1"),
        module_id: String::from("Q-1"),
        score_bps: 8000,
        certificate_id: String::new(),
        detail: String::new(),
        prev_hash: 0,
    };
    let h1 = r.hash();
    r.score_bps = 10000;
    assert_ne!(h1, r.hash());
}

#[test]
fn empty_trail_tail_hash_is_zero() {
    let trail = Trail::new();
    assert_eq!(trail.tail_hash(), 0);
    assert!(trail.is_empty());
}

#[test]
fn signed_record_verifies_on_append() {
    let mut trail = Trail::new();
    append(&mut trail, LearningEventKind::Enrolled, 1, "L-001", "C-INTRO", "", 0, "", "");
    assert!(trail.entries()[0].verify(true));
}

#[test]
fn tampered_certificate_id_is_detected() {
    let mut trail = Trail::new();
    append(
        &mut trail,
        LearningEventKind::CertificateIssued,
        1,
        "L",
        "C",
        "",
        10000,
        "CERT-original",
        "",
    );
    let mut e = trail.entries()[0].clone();
    e.record.certificate_id = String::from("CERT-attacker");
    assert!(!e.verify(true));
}

#[test]
fn chained_prev_hash_matches_predecessor() {
    let mut trail = Trail::new();
    append(&mut trail, LearningEventKind::Enrolled, 1, "L", "C", "", 0, "", "");
    append(
        &mut trail,
        LearningEventKind::ModuleCompleted,
        2,
        "L",
        "C",
        "M-1",
        10000,
        "",
        "",
    );
    let first = trail.entries()[0].hash;
    assert_eq!(trail.entries()[1].record.prev_hash, first);
}

#[test]
fn intact_completion_arc_is_valid() {
    let mut trail = Trail::new();
    append(&mut trail, LearningEventKind::Enrolled, 1, "L", "C", "", 0, "", "");
    append(&mut trail, LearningEventKind::ModuleCompleted, 2, "L", "C", "M-1", 10000, "", "");
    append(&mut trail, LearningEventKind::QuizAttempt, 3, "L", "C", "Q-1", 8500, "", "");
    append(&mut trail, LearningEventKind::CertificateIssued, 4, "L", "C", "", 8500, "CERT-1", "");
    assert!(trail.is_valid(&all_verify(&trail)));
}

#[test]
fn issued_then_revoked_certificate_is_invalid() {
    let mut trail = Trail::new();
    append(&mut trail, LearningEventKind::CertificateIssued, 1, "L", "C", "", 10000, "CERT-1", "");
    append(
        &mut trail,
        LearningEventKind::CertificateRevoked,
        2,
        "L",
        "C",
        "",
        0,
        "CERT-1",
        "found to be forged",
    );
    assert!(!trail.is_certificate_valid("CERT-1"));
}

#[test]
fn issued_certificate_is_valid() {
    let mut trail = Trail::new();
    append(&mut trail, LearningEventKind::CertificateIssued, 1, "L", "C", "", 10000, "CERT-1", "");
    assert!(trail.is_certificate_valid("CERT-1"));
    assert!(!trail.is_certificate_valid("CERT-unknown"));
}

#[test]
fn learners_lists_distinct() {
    let mut trail = Trail::new();
    append(&mut trail, LearningEventKind::Enrolled, 1, "L-A", "C", "", 0, "", "");
    append(&mut trail, LearningEventKind::Enrolled, 2, "L-B", "C", "", 0, "", "");
    append(&mut trail, LearningEventKind::CertificateIssued, 3, "L-A", "C", "", 10000, "CERT-A", "");
    let learners = trail.learners();
    assert_eq!(learners.len(), 2);
    assert!(learners.contains(&String::from("L-A")));
    assert!(learners.contains(&String::from("L-B")));
}

#[test]
fn count_kind_for_course_filters() {
    let mut trail = Trail::new();
    for i in 0..3 {
        append(&mut trail, LearningEventKind::Enrolled, i, &format!("L-{i}"), "C-1", "", 0, "", "");
    }
    for i in 0..2 {
        append(&mut trail, LearningEventKind::Enrolled, i, &format!("L-x{i}"), "C-2", "", 0, "", "");
    }
    assert_eq!(trail.count_kind_for_course("C-1", LearningEventKind::Enrolled), 3);
    assert_eq!(trail.count_kind_for_course("C-2", LearningEventKind::Enrolled), 2);
    assert_eq!(trail.count_kind_for_course("C-1", LearningEventKind::CertificateIssued), 0);
}

#[test]
fn different_kinds_produce_different_hashes() {
    let mk = |kind: LearningEventKind| LearningRecord {
        seq: 0,
        kind,
        timestamp_ns: 1,
        learner_id: String::new(),
        course_id: String::new(),
        module_id: String::new(),
        score_bps: 0,
        certificate_id: String::new(),
        detail: String::new(),
        prev_hash: 0,
    };
    assert_ne!(
        mk(LearningEventKind::Enrolled).hash(),
        mk(LearningEventKind::CertificateIssued).hash()
    );
}

// -- Further cases -----------------------------------------------------

fn sample_record() -> LearningRecord {
    LearningRecord {
        seq: 0,
        kind: LearningEventKind::CertificateIssued,
        timestamp_ns: 1,
        learner_id: String::from("L-001"),
        course_id: String::from("C-INTRO"),
        module_id: String::new(),
        score_bps: 8500,
        certificate_id: String::from("CERT-1"),
        detail: String::from("Introduction to ALICE"),
        prev_hash: 0,
    }
}

#[test]
fn canonical_bytes_layout() {
    let b = sample_record().canonical_bytes();
    assert_eq!(b.len(), 77);
    assert_eq!(&b[..8], &[0u8; 8]);
    assert_eq!(&b[8..13], b"CERT\0");
    assert_eq!(&b[13..21], &[1, 0, 0, 0, 0, 0, 0, 0]);
    assert_eq!(&b[21..27], b"L-001\0");
}

#[test]
fn hash_is_fnv1a_of_canonical_bytes() {
    assert_eq!(sample_record().hash(), 0xa6c7_7a7c_8251_f9c6);
    let empty = LearningRecord {
        seq: 0,
        kind: LearningEventKind::Enrolled,
        timestamp_ns: 1,
        learner_id: String::new(),
        course_id: String::new(),
        module_id: String::new(),
        score_bps: 0,
        certificate_id: String::new(),
        detail: String::new(),
        prev_hash: 0,
    };
    assert_eq!(empty.hash(), 16115221136169022832);
}

#[test]
fn next_record_is_numbered_and_chained() {
    let mut trail = Trail::new();
    append(&mut trail, LearningEventKind::Enrolled, 1, "L", "C", "", 0, "", "");
    let r = trail.next_record(LearningEventKind::QuizAttempt, 5, "L", "C", "Q", 7, "", "d");
    assert_eq!(r.seq, 1);
    assert_eq!(r.prev_hash, trail.tail_hash());
    assert_eq!(r.detail, "d");
    assert_eq!(trail.len(), 1);
}

#[test]
fn append_refuses_out_of_place_record() {
    let mut trail = Trail::new();
    let mut r = trail.next_record(LearningEventKind::Enrolled, 1, "L", "C", "", 0, "", "");
    r.seq = 3;
    assert!(!trail.append_signed(r, SIGNATURE.to_vec(), ISSUER.to_vec()));
    assert!(trail.is_empty());
    let mut r = trail.next_record(LearningEventKind::Enrolled, 1, "L", "C", "", 0, "", "");
    r.prev_hash = 42;
    assert!(!trail.append_signed(r, SIGNATURE.to_vec(), ISSUER.to_vec()));
    assert!(trail.is_empty());
}

#[test]
fn appended_entry_holds_hash_and_signature() {
    let mut trail = Trail::new();
    let r = trail.next_record(LearningEventKind::Enrolled, 1, "L", "C", "", 0, "", "");
    let h = r.hash();
    assert!(trail.append_signed(r, SIGNATURE.to_vec(), ISSUER.to_vec()));
    let e: &SignedLearningRecord<Vec<u8>, Vec<u8>> = &trail.entries()[0];
    assert_eq!(e.hash, h);
    assert_eq!(e.signature, SIGNATURE.to_vec());
    assert_eq!(e.issuer, ISSUER.to_vec());
    assert!(e.verify(true));
    assert!(!e.verify(false));
}

#[test]
fn bad_signature_is_reported_at_its_entry() {
    let mut trail = Trail::new();
    append(&mut trail, LearningEventKind::Enrolled, 1, "L", "C", "", 0, "", "");
    append(&mut trail, LearningEventKind::QuizAttempt, 2, "L", "C", "Q-1", 6000, "", "");
    append(&mut trail, LearningEventKind::Withdrawn, 3, "L", "C", "", 0, "", "");
    assert_eq!(trail.find_first_tamper(&[true, true, true]), None);
    assert_eq!(trail.find_first_tamper(&[true, false, false]), Some(1));
    assert!(!trail.is_valid(&[true, true, false]));
}

#[test]
fn tampered_copy_fails_hash_check() {
    let mut trail = Trail::new();
    append(&mut trail, LearningEventKind::QuizAttempt, 1, "L", "C", "Q-1", 6000, "", "");
    let mut e = trail.entries()[0].clone();
    assert!(e.hash_matches());
    e.record.score_bps = 10000;
    assert!(!e.hash_matches());
    assert!(!e.verify(true));
}

#[test]
fn reissued_certificate_is_valid_again() {
    let mut trail = Trail::new();
    append(&mut trail, LearningEventKind::CertificateIssued, 1, "L", "C", "", 1, "CERT-1", "");
    append(&mut trail, LearningEventKind::CertificateRevoked, 2, "L", "C", "", 0, "CERT-1", "");
    append(&mut trail, LearningEventKind::CertificateIssued, 3, "L", "C", "", 1, "CERT-1", "");
    append(&mut trail, LearningEventKind::CertificateRevoked, 4, "L", "C", "", 0, "CERT-2", "");
    assert!(trail.is_certificate_valid("CERT-1"));
    assert!(!trail.is_certificate_valid("CERT-2"));
}

#[test]
fn learners_in_order_of_first_appearance() {
    let mut trail = Trail::new();
    append(&mut trail, LearningEventKind::Enrolled, 1, "B", "C", "", 0, "", "");
    append(&mut trail, LearningEventKind::Enrolled, 2, "A", "C", "", 0, "", "");
    append(&mut trail, LearningEventKind::Enrolled, 3, "B", "C", "", 0, "", "");
    assert_eq!(trail.learners(), vec![String::from("B"), String::from("A")]);
    assert!(Trail::default().learners().is_empty());
}
