use coral::config::{MissingInput, Mode, Options};
use coral::util::{get_commit_name, get_proof_name, new_hash_map};

fn opts(commit: bool, prove: bool, verify: bool, e2e: bool, doc: Option<&str>, grammar: Option<&str>) -> Options {
    Options {
        commit,
        prove,
        verify,
        e2e,
        cmt_name: None,
        proof_name: None,
        doc: doc.map(|s| s.to_string()),
        grammar: grammar.map(|s| s.to_string()),
        metrics: None,
        batch_size: 1,
    }
}

#[test]
fn default_file_names() {
    assert_eq!(get_commit_name(None), "grammar.cmt");
    assert_eq!(get_proof_name(None), "to_verify.proof");
    assert_eq!(get_commit_name(Some("g.cmt".to_string())), "g.cmt");
    assert_eq!(get_proof_name(Some("p.proof".to_string())), "p.proof");
}

#[test]
fn new_hash_map_is_empty() {
    let m: std::collections::HashMap<u64, String> = new_hash_map();
    assert!(m.is_empty());
}

#[test]
fn commit_needs_only_grammar() {
    let p = opts(true, false, false, false, None, Some("g.pest")).plan();
    assert!(p.missing.is_none());
    assert_eq!(p.stages.len(), 1);
    assert_eq!(p.stages[0].mode, Mode::Commit);
    assert_eq!(p.stages[0].grammar.as_deref(), Some("g.pest"));
    assert_eq!(p.stages[0].doc, None);
}

#[test]
fn commit_without_grammar_stops() {
    let p = opts(true, false, false, false, Some("d.txt"), None).plan();
    assert!(p.stages.is_empty());
    let m = p.missing.unwrap();
    assert_eq!(m, MissingInput::Grammar(Mode::Commit));
    assert_eq!(m.message(), "Grammar file (-g) is required for --commit");
}

#[test]
fn verify_needs_only_document() {
    let p = opts(false, false, true, false, Some("d.txt"), None).plan();
    assert!(p.missing.is_none());
    assert_eq!(p.stages[0].mode, Mode::Verify);
    assert_eq!(p.stages[0].grammar, None);
    assert_eq!(p.stages[0].doc.as_deref(), Some("d.txt"));
    let p = opts(false, false, true, false, None, Some("g.pest")).plan();
    assert_eq!(p.missing, Some(MissingInput::Document(Mode::Verify)));
    assert_eq!(p.missing.unwrap().message(), "Document file (-d) is required for --verify");
}

#[test]
fn e2e_overrides_prove_and_verify() {
    let p = opts(false, true, true, true, Some("d.txt"), Some("g.pest")).plan();
    assert!(p.missing.is_none());
    assert_eq!(p.stages.len(), 1);
    assert_eq!(p.stages[0].mode, Mode::EndToEnd);
}

#[test]
fn prove_checks_grammar_before_document() {
    let p = opts(false, true, false, false, None, None).plan();
    assert_eq!(p.missing, Some(MissingInput::Grammar(Mode::Prove)));
    let p = opts(false, true, false, false, None, Some("g.pest")).plan();
    assert_eq!(p.missing, Some(MissingInput::Document(Mode::Prove)));
    assert_eq!(p.missing.unwrap().message(), "Document file (-d) is required for --prove");
}

#[test]
fn stages_run_until_an_input_is_missing() {
    let p = opts(true, false, true, false, None, Some("g.pest")).plan();
    assert_eq!(p.stages.len(), 1);
    assert_eq!(p.stages[0].mode, Mode::Commit);
    assert_eq!(p.missing, Some(MissingInput::Document(Mode::Verify)));
}
