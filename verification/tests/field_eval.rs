use coral::document::{document_eval_matches, expected_running_eval, verifier_num_steps};
use coral::field::FieldElem;

fn fe(n: u64) -> FieldElem {
    FieldElem::from_u64(n)
}

// The BN254 scalar field order, little-endian limbs.
const MODULUS: [u64; 4] = [0x43e1f593f0000001, 0x2833e84879b97091, 0xb85045b68181585d, 0x30644e72e131a029];

#[test]
fn from_limbs_accepts_below_modulus_only() {
    assert!(FieldElem::from_limbs(MODULUS).is_none());
    let mut below = MODULUS;
    below[0] -= 1;
    let e = FieldElem::from_limbs(below).unwrap();
    assert_eq!(e.limbs(), below);
    let mut above = MODULUS;
    above[1] += 1;
    assert!(FieldElem::from_limbs(above).is_none());
    assert!(FieldElem::from_limbs([u64::MAX; 4]).is_none());
    assert_eq!(FieldElem::from_limbs([5, 0, 0, 0]).unwrap(), fe(5));
    let mut top_below = MODULUS;
    top_below[3] -= 1;
    top_below[0] = u64::MAX;
    assert!(FieldElem::from_limbs(top_below).is_some());
}

#[test]
fn running_eval_empty_document_is_one() {
    let r = expected_running_eval(&vec![], fe(0), fe(1000));
    assert_eq!(r, FieldElem::one());
}

#[test]
fn running_eval_exact_value() {
    // Hashes 11, eps, 22, 33 with eps = 0 and challenge 1000:
    // (1000 - 11*2^32) (1000 - (22*2^32 + 1)) (1000 - (33*2^32 + 2)) mod p.
    let hashes = vec![fe(11), fe(0), fe(22), fe(33)];
    let r = expected_running_eval(&hashes, fe(0), fe(1000));
    assert_eq!(r.limbs(), [0x3ff48eae2b6d0b11, 0x2833c91679cdbc7a, 0xb85045b68181585d, 0x30644e72e131a029]);
}

#[test]
fn running_eval_skips_epsilon_hashes() {
    let r = expected_running_eval(&vec![fe(5), fe(5)], fe(5), fe(9));
    assert_eq!(r, FieldElem::one());
}

#[test]
fn running_eval_reduces_modulo_field_order() {
    let mut top = MODULUS;
    top[0] -= 1; // p - 1
    let h = FieldElem::from_limbs(top).unwrap();
    // ((p - 1) * 2^32) mod p = p - 2^32, so the factor is 3 - (p - 2^32) = 2^32 + 3.
    let r = expected_running_eval(&vec![h], fe(0), fe(3));
    assert_eq!(r.limbs(), [0x1_0000_0003, 0, 0, 0]);
}

#[test]
fn document_eval_check_matches_and_mismatches() {
    let hashes = vec![fe(11), fe(0), fe(22), fe(33)];
    let good = FieldElem::from_limbs([0x3ff48eae2b6d0b11, 0x2833c91679cdbc7a, 0xb85045b68181585d, 0x30644e72e131a029]).unwrap();
    assert!(document_eval_matches(good, &hashes, fe(0), fe(1000)));
    assert!(!document_eval_matches(fe(1), &hashes, fe(0), fe(1000)));
    // Epsilon hashes do not count; another character changes the evaluation.
    assert!(document_eval_matches(good, &vec![fe(11), fe(22), fe(0), fe(33)], fe(0), fe(1000)));
    let other = vec![fe(11), fe(22), fe(34)];
    assert!(!document_eval_matches(good, &other, fe(0), fe(1000)));
}

#[test]
fn verifier_steps_round_up() {
    assert_eq!(verifier_num_steps(10, 3), 4);
    assert_eq!(verifier_num_steps(9, 3), 3);
    assert_eq!(verifier_num_steps(0, 5), 0);
    assert_eq!(verifier_num_steps(1, 1000), 1);
    assert_eq!(verifier_num_steps(usize::MAX, 1), usize::MAX);
    assert_eq!(verifier_num_steps(usize::MAX, 2), usize::MAX / 2 + 1);
}

#[test]
fn limbs_roundtrip() {
    let mut top = MODULUS;
    top[0] -= 1;
    for e in [fe(0), fe(1), fe(u64::MAX), FieldElem::from_limbs(top).unwrap()] {
        assert_eq!(FieldElem::from_limbs(e.limbs()), Some(e));
    }
}

#[test]
fn prover_rounds_equal_verifier_steps_within_32_bits() {
    for (n, b) in [(10usize, 3usize), (0, 1), (1000, 7), (4096, 4096)] {
        assert_eq!(coral::folding::num_rounds(n, b), verifier_num_steps(n, b));
    }
    // Beyond 32 bits the prover's count is cut and the two differ.
    assert_ne!(coral::folding::num_rounds(1usize << 32, 1), verifier_num_steps(1usize << 32, 1));
}
