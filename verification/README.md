# alice_lms

A learning management system: courses made of ordered modules and lessons,
enrollment and progress tracking, a quiz engine, certificate issuance, and a
hash-chained trail of signed learning events. The library in `src/` is
verified with Verus.

- `src/lesson.rs`, `module.rs`, `course.rs`: the course structure. Modules
  and courses keep their lessons and modules stably sorted by their `order`
  (`ordering.rs` holds the facts about stable sorting, `sums.rs` those about
  totals).
- `src/enrollment.rs`, `progress.rs`: enrollment status and per-course progress.
- `src/quiz.rs`, `text.rs`: questions, ASCII case-insensitive answer matching,
  grading.
- `src/signed_certificate.rs`: canonical byte layout and FNV-1a hashing of
  learning records, the chained trail, its integrity check, certificate
  validity and learner listing. Signing is left to the caller, who also says
  whether each signature verifies.
- `src/system.rs`: the system that ties it together, over `keyed.rs` maps held
  as key and value pairs.
- `src/laws.rs`: properties relating several operations.
- `app/`: what works in floating point (grade books, GPAs, certificate
  criteria and certificates carrying a GPA), a system combining it with the
  verified core, and signing with `alice_blockchain` Ed25519 keys.
