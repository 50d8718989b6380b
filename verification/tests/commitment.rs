use coral::field::FieldElem;
use coral::prover::{commit_grammar, verify_grammar_commitment, GrammarCommitment, GrammarTables};

fn fe(n: u64) -> FieldElem {
    FieldElem::from_u64(n)
}

fn rows(v: &[&[u64]]) -> Vec<Vec<FieldElem>> {
    v.iter().map(|r| r.iter().map(|&x| fe(x)).collect()).collect()
}

fn tables(rule: &[&[u64]], np: &[&[u64]], ws: &[u64], meta: [usize; 4]) -> GrammarTables {
    GrammarTables {
        rule_vec: rows(rule),
        np_vec: rows(np),
        ws_vec: ws.iter().map(|&x| fe(x)).collect(),
        rule_count: meta[0],
        max_rule_size: meta[1],
        np_count: meta[2],
        max_np_rule_size: meta[3],
    }
}

// Stand-ins for the normalized tables of the sample grammars.
fn json_tables() -> GrammarTables {
    tables(
        &[&[3, 5, 8, 0], &[4, 9, 0, 0], &[6, 7, 2, 1], &[u64::MAX, 0, 0, 0]],
        &[&[12, 13], &[14, 15]],
        &[32, 9, 10, 0],
        [4, 4, 2, 2],
    )
}

fn toml_tables() -> GrammarTables {
    tables(&[&[2, 7, 0], &[5, 5, 1], &[u64::MAX, 0, 0]], &[&[21, 22]], &[32, 9], [3, 3, 1, 2])
}

fn simple_tables() -> GrammarTables {
    tables(&[&[1, 2], &[u64::MAX, 0]], &[], &[0], [2, 2, 0, 0])
}

fn c_tables() -> GrammarTables {
    tables(&[&[40, 41, 42], &[43, 0, 0], &[u64::MAX, 0, 0]], &[&[50]], &[32, 10], [3, 3, 1, 1])
}

fn hex(d: &[u8; 32]) -> String {
    d.iter().map(|b| format!("{:02x}", b)).collect()
}

fn same(c1: &GrammarCommitment, c2: &GrammarCommitment) {
    assert_eq!(c1.digest, c2.digest, "digest must be deterministic");
    assert_eq!(c1.rule_count, c2.rule_count);
    assert_eq!(c1.max_rule_size, c2.max_rule_size);
    assert_eq!(c1.np_count, c2.np_count);
    assert_eq!(c1.max_np_rule_size, c2.max_np_rule_size);
    assert_eq!(c1.ws_count, c2.ws_count);
}

#[test]
fn grammar_commitment_deterministic() {
    let g = json_tables();
    let c1 = commit_grammar(&g);
    let c2 = commit_grammar(&g);
    same(&c1, &c2);
}

#[test]
fn grammar_commitment_deterministic_across_loads() {
    let g1 = json_tables();
    let c1 = commit_grammar(&g1);
    let g2 = json_tables();
    let c2 = commit_grammar(&g2);
    assert_eq!(c1.digest, c2.digest, "commitment must be stable across separate loads");
}

#[test]
fn grammar_commitment_deterministic_all_grammars() {
    let makers: [fn() -> GrammarTables; 4] = [simple_tables, json_tables, toml_tables, c_tables];
    for (i, make) in makers.iter().enumerate() {
        let c1 = commit_grammar(&make());
        let c2 = commit_grammar(&make());
        assert_eq!(c1.digest, c2.digest, "determinism failed for {i}");
    }
}

#[test]
fn grammar_commitment_verify_roundtrip() {
    let makers: [fn() -> GrammarTables; 4] = [simple_tables, json_tables, toml_tables, c_tables];
    for (i, make) in makers.iter().enumerate() {
        let g = make();
        let c = commit_grammar(&g);
        assert!(verify_grammar_commitment(&g, &c), "roundtrip failed for {i}");
    }
}

#[test]
fn grammar_commitment_wrong_grammar() {
    let c_json = commit_grammar(&json_tables());
    assert!(
        !verify_grammar_commitment(&toml_tables(), &c_json),
        "TOML grammar must not match JSON commitment"
    );
    assert!(
        !verify_grammar_commitment(&simple_tables(), &c_json),
        "simple grammar must not match JSON commitment"
    );
}

#[test]
fn grammar_commitment_tampered_digest() {
    let g = json_tables();
    let mut c = commit_grammar(&g);
    c.digest[0] ^= 0xff;
    assert!(!verify_grammar_commitment(&g, &c), "tampered digest must fail verification");
}

#[test]
fn grammar_commitment_tampered_metadata_passes_digest_check() {
    let g = json_tables();
    let mut c = commit_grammar(&g);
    c.rule_count += 999;
    assert!(verify_grammar_commitment(&g, &c));
}

#[test]
fn distinct_grammars_distinct_digests() {
    let digests: Vec<[u8; 32]> = [json_tables(), toml_tables(), simple_tables(), c_tables()]
        .iter()
        .map(|g| commit_grammar(g).digest)
        .collect();
    for i in 0..digests.len() {
        for j in (i + 1)..digests.len() {
            assert_ne!(digests[i], digests[j], "grammars {i} and {j} must have different digests");
        }
    }
}

#[test]
fn commitment_of_empty_tables_is_hash_of_nothing() {
    let c = commit_grammar(&tables(&[], &[], &[], [0, 0, 0, 0]));
    assert_eq!(hex(&c.digest), "e3b0c44298fc1c149afbf4c8996fb92427ae41e4649b934ca495991b7852b855");
    assert_eq!(c.ws_count, 0);
}

#[test]
fn commitment_digest_exact_value_and_metadata() {
    let g = tables(&[&[1, 2], &[3, 4]], &[&[5]], &[7], [2, 2, 1, 1]);
    let c = commit_grammar(&g);
    // SHA-256 of the 32-byte little-endian encodings of 1, 2, 3, 4, 5, 7.
    assert_eq!(hex(&c.digest), "ee0de233147c6ad408bd8a97677d12441d0aaffab7241593e1cc21179b0abe7f");
    assert_eq!(c.rule_count, 2);
    assert_eq!(c.max_rule_size, 2);
    assert_eq!(c.np_count, 1);
    assert_eq!(c.max_np_rule_size, 1);
    assert_eq!(c.ws_count, 1);
}

#[test]
fn commitment_ignores_row_boundaries() {
    // The same entries split into other rows give the same digest.
    let a = tables(&[&[1, 2], &[3, 4]], &[&[5]], &[7], [2, 2, 1, 1]);
    let b = tables(&[&[1], &[2, 3, 4]], &[], &[5, 7], [9, 9, 9, 9]);
    assert_eq!(commit_grammar(&a).digest, commit_grammar(&b).digest);
    assert!(verify_grammar_commitment(&b, &commit_grammar(&a)));
}

#[test]
fn commitment_changes_with_one_entry() {
    let a = tables(&[&[1, 2], &[3, 4]], &[&[5]], &[7], [2, 2, 1, 1]);
    let b = tables(&[&[1, 2], &[3, 4]], &[&[5]], &[8], [2, 2, 1, 1]);
    assert_ne!(commit_grammar(&a).digest, commit_grammar(&b).digest);
}
