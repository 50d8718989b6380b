use std::collections::HashMap;
use vstd::prelude::*;

verus! {

broadcast use vstd::string::group_string_axioms;

/// File name under which a grammar commitment is stored when none is given.
pub open spec fn default_commit_name() -> Seq<char> {
    "grammar.cmt"@
}

/// File name under which a proof is stored when none is given.
pub open spec fn default_proof_name() -> Seq<char> {
    "to_verify.proof"@
}

/// Creates an empty hash map.
pub fn new_hash_map<K, V>() -> (m: HashMap<K, V>)
    ensures
        m@ == Map::<K, V>::empty(),
{
    HashMap::new()
}

/// The grammar commitment file name: the one given, else `grammar.cmt`.
pub fn get_commit_name(opt_name: Option<String>) -> (name: String)
    ensures
        name@ == match opt_name {
            Some(n) => n@,
            None => default_commit_name(),
        },
{
    match opt_name {
        Some(name) => name,
        None => "grammar.cmt".to_string(),
    }
}

/// The proof file name: the one given, else `to_verify.proof`.
pub fn get_proof_name(opt_name: Option<String>) -> (name: String)
    ensures
        name@ == match opt_name {
            Some(n) => n@,
            None => default_proof_name(),
        },
{
    match opt_name {
        Some(name) => name,
        None => "to_verify.proof".to_string(),
    }
}

} // verus!
