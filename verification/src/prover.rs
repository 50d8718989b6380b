use crate::field::{field_to_bytes, lemma_le_encoding_len, FieldElem};
use sha2::{Digest, Sha256};
use vstd::prelude::*;

verus! {

broadcast use vstd::seq_lib::group_seq_properties;

/// What SHA-256 gives for `data`.
pub uninterp spec fn sha256(data: Seq<u8>) -> Seq<u8>;

/// SHA-256 of `data`; calls `sha2::Sha256::digest`. Claimed: the result is
/// the function `sha256` of the input bytes (the hash is deterministic;
/// feeding the bytes in several `update` calls gives the digest of their
/// concatenation). Nothing is claimed about collisions.
#[verifier::external_body]
fn sha256_digest(data: &[u8]) -> (d: [u8; 32])
    ensures
        d@ == sha256(data@),
{
    Sha256::digest(data).into()
}

/// The normalized grammar tables that a commitment binds: the rule table
/// (one padded row of field elements per rule, the ANY sentinel last), the
/// negative-predicate table, the whitespace entries, and the grammar's
/// shape metadata.
pub struct GrammarTables {
    /// Rule rows, each a padded production.
    pub rule_vec: Vec<Vec<FieldElem>>,
    /// Negative-predicate rows.
    pub np_vec: Vec<Vec<FieldElem>>,
    /// Whitespace entries.
    pub ws_vec: Vec<FieldElem>,
    /// Number of unique rules (including the ANY sentinel).
    pub rule_count: usize,
    /// Maximum number of symbols in a single rule production.
    pub max_rule_size: usize,
    /// Number of negative-predicate rules of the grammar.
    pub np_count: usize,
    /// Maximum size of a negative-predicate polynomial.
    pub max_np_rule_size: usize,
}

/// Commitment to a normalized grammar. Produced in commit mode and
/// consumed by prove/verify modes.
#[derive(Clone, Copy, Debug)]
pub struct GrammarCommitment {
    /// SHA-256 digest of the canonical grammar tables.
    pub digest: [u8; 32],
    /// Number of unique rules (including the ANY sentinel).
    pub rule_count: usize,
    /// Maximum number of symbols in a single rule production.
    pub max_rule_size: usize,
    /// Number of negative-predicate rules.
    pub np_count: usize,
    /// Maximum size of a negative-predicate polynomial.
    pub max_np_rule_size: usize,
    /// Number of whitespace entries.
    pub ws_count: usize,
}

/// The rows of a table, each taken as a sequence.
pub open spec fn rows_view(rows: Seq<Vec<FieldElem>>) -> Seq<Seq<FieldElem>> {
    rows.map_values(|r: Vec<FieldElem>| r@)
}

/// The concatenated 32-byte encodings of `s`, in order.
pub open spec fn elems_bytes(s: Seq<FieldElem>) -> Seq<u8>
    decreases s.len(),
{
    if s.len() == 0 {
        Seq::empty()
    } else {
        elems_bytes(s.drop_last()) + s.last().le_bytes()
    }
}

impl GrammarTables {
    /// The table entries in the order the commitment absorbs them: the rule
    /// rows, then the negative-predicate rows, then the whitespace entries.
    pub open spec fn table_elems(&self) -> Seq<FieldElem> {
        rows_view(self.rule_vec@).flatten() + rows_view(self.np_vec@).flatten() + self.ws_vec@
    }

    /// The canonical serialization of the tables: every entry's compressed
    /// 32-byte encoding, in absorption order.
    pub open spec fn canonical_bytes(&self) -> Seq<u8> {
        elems_bytes(self.table_elems())
    }
}

/// Whether `c` holds the digest of the tables `g`.
pub open spec fn commitment_matches(g: &GrammarTables, c: &GrammarCommitment) -> bool {
    c.digest@ == sha256(g.canonical_bytes())
}

/// Encoding a concatenation concatenates the encodings.
pub proof fn lemma_elems_bytes_concat(a: Seq<FieldElem>, b: Seq<FieldElem>)
    ensures
        elems_bytes(a + b) == elems_bytes(a) + elems_bytes(b),
    decreases b.len(),
{
    if b.len() == 0 {
        assert(a + b =~= a);
        assert(elems_bytes(b) =~= Seq::<u8>::empty());
        assert(elems_bytes(a) + elems_bytes(b) =~= elems_bytes(a));
    } else {
        assert((a + b).drop_last() =~= a + b.drop_last());
        assert((a + b).last() == b.last());
        lemma_elems_bytes_concat(a, b.drop_last());
        assert(elems_bytes(a + b) =~= elems_bytes(a) + elems_bytes(b));
    }
}

/// Appends the encodings of `elems` to `out`.
fn append_elems(out: &mut Vec<u8>, elems: &Vec<FieldElem>)
    ensures
        final(out)@ == old(out)@ + elems_bytes(elems@),
{
    let n = elems.len();
    assert(elems@.take(0) =~= Seq::<FieldElem>::empty());
    assert(old(out)@ + elems_bytes(elems@.take(0)) =~= old(out)@);
    for i in 0..n
        invariant
            n == elems@.len(),
            out@ == old(out)@ + elems_bytes(elems@.take(i as int)),
    {
        let e = elems[i];
        proof {
            use_type_invariant(&e);
        }
        let mut bytes = field_to_bytes(e);
        let ghost before = out@;
        out.append(&mut bytes);
        proof {
            assert(elems@.take(i + 1).drop_last() =~= elems@.take(i as int));
            assert(elems@.take(i + 1).last() == e);
            assert(out@ =~= old(out)@ + elems_bytes(elems@.take(i + 1)));
        }
    }
    assert(elems@.take(n as int) =~= elems@);
}

/// Appends the encodings of the entries of every row of `rows` to `out`.
fn append_rows(out: &mut Vec<u8>, rows: &Vec<Vec<FieldElem>>)
    ensures
        final(out)@ == old(out)@ + elems_bytes(rows_view(rows@).flatten()),
{
    let n = rows.len();
    assert(rows_view(rows@.take(0)) =~= Seq::<Seq<FieldElem>>::empty());
    assert(old(out)@ + elems_bytes(rows_view(rows@.take(0)).flatten()) =~= old(out)@);
    for i in 0..n
        invariant
            n == rows@.len(),
            out@ == old(out)@ + elems_bytes(rows_view(rows@.take(i as int)).flatten()),
    {
        let ghost prefix = rows_view(rows@.take(i as int));
        append_elems(out, &rows[i]);
        proof {
            assert(rows_view(rows@.take(i + 1)) =~= prefix.push(rows@[i as int]@));
            prefix.lemma_flatten_push(rows@[i as int]@);
            lemma_elems_bytes_concat(prefix.flatten(), rows@[i as int]@);
            assert(out@ =~= old(out)@ + elems_bytes(rows_view(rows@.take(i + 1)).flatten()));
        }
    }
    assert(rows@.take(n as int) =~= rows@);
}

/// The canonical serialization of the grammar tables.
fn serialize_tables(g: &GrammarTables) -> (bytes: Vec<u8>)
    ensures
        bytes@ == g.canonical_bytes(),
{
    let mut bytes: Vec<u8> = Vec::new();
    append_rows(&mut bytes, &g.rule_vec);
    append_rows(&mut bytes, &g.np_vec);
    append_elems(&mut bytes, &g.ws_vec);
    proof {
        let r = rows_view(g.rule_vec@).flatten();
        let p = rows_view(g.np_vec@).flatten();
        lemma_elems_bytes_concat(r, p);
        lemma_elems_bytes_concat(r + p, g.ws_vec@);
        assert(bytes@ =~= g.canonical_bytes());
    }
    bytes
}

/// Build a canonical SHA-256 commitment over the normalized grammar tables.
pub fn commit_grammar(g: &GrammarTables) -> (c: GrammarCommitment)
    ensures
        commitment_matches(g, &c),
        c.rule_count == g.rule_count,
        c.max_rule_size == g.max_rule_size,
        c.np_count == g.np_count,
        c.max_np_rule_size == g.max_np_rule_size,
        c.ws_count == g.ws_vec.len(),
{
    let bytes = serialize_tables(g);
    let digest = sha256_digest(bytes.as_slice());
    GrammarCommitment {
        digest,
        rule_count: g.rule_count,
        max_rule_size: g.max_rule_size,
        np_count: g.np_count,
        max_np_rule_size: g.max_np_rule_size,
        ws_count: g.ws_vec.len(),
    }
}

/// Returns `true` when the grammar produces the same commitment digest.
/// Only the digest is compared: the metadata is not checked.
pub fn verify_grammar_commitment(g: &GrammarTables, commitment: &GrammarCommitment) -> (ok: bool)
    ensures
        ok == commitment_matches(g, commitment),
{
    let computed = commit_grammar(g);
    let mut i: usize = 0;
    while i < 32
        invariant
            i <= 32,
            computed.digest@.len() == 32,
            commitment.digest@.len() == 32,
            commitment_matches(g, &computed),
            forall|j: int| 0 <= j < i ==> computed.digest@[j] == commitment.digest@[j],
        decreases 32 - i,
    {
        if computed.digest[i] != commitment.digest[i] {
            assert(computed.digest@[i as int] != commitment.digest@[i as int]);
            return false;
        }
        i = i + 1;
    }
    assert(computed.digest@ =~= commitment.digest@);
    true
}

/// Verification accepts the commitment that commit mode produced for the
/// same tables.
pub proof fn law_commit_then_verify(g: &GrammarTables, c: &GrammarCommitment)
    requires
        c.digest@ == sha256(g.canonical_bytes()),
    ensures
        commitment_matches(g, c),
{
}

/// The digest is the authoritative binding: two commitments with the same
/// digest are accepted or refused together, whatever their metadata.
pub proof fn law_only_digest_is_checked(
    g: &GrammarTables,
    c1: &GrammarCommitment,
    c2: &GrammarCommitment,
)
    requires
        c1.digest@ == c2.digest@,
    ensures
        commitment_matches(g, c1) == commitment_matches(g, c2),
{
}

/// Tables with the same entries, in the same order, have the same digest,
/// whatever their metadata or the way their entries are split into rows.
pub proof fn law_commitment_deterministic(g1: &GrammarTables, g2: &GrammarTables)
    requires
        g1.table_elems() == g2.table_elems(),
    ensures
        sha256(g1.canonical_bytes()) == sha256(g2.canonical_bytes()),
{
}

/// Each entry takes exactly 32 bytes of the encoding.
pub proof fn lemma_elems_bytes_len(s: Seq<FieldElem>)
    ensures
        elems_bytes(s).len() == 32 * s.len(),
    decreases s.len(),
{
    if s.len() > 0 {
        lemma_elems_bytes_len(s.drop_last());
        lemma_le_encoding_len(s.last().value() as nat, 32);
    }
}

/// The `k`-th block of 32 bytes of the encoding is the encoding of the
/// `k`-th entry.
pub proof fn lemma_elems_bytes_block(s: Seq<FieldElem>, k: int)
    requires
        0 <= k < s.len(),
    ensures
        elems_bytes(s).subrange(32 * k, 32 * k + 32) == s[k].le_bytes(),
    decreases s.len(),
{
    let p = s.drop_last();
    lemma_elems_bytes_len(p);
    lemma_le_encoding_len(s.last().value() as nat, 32);
    if k == s.len() - 1 {
        assert(elems_bytes(s).subrange(32 * k, 32 * k + 32) =~= s.last().le_bytes());
    } else {
        lemma_elems_bytes_block(p, k);
        assert(elems_bytes(s).subrange(32 * k, 32 * k + 32) =~= elems_bytes(p).subrange(
            32 * k,
            32 * k + 32,
        ));
    }
}

/// The number of entries in a table's rows, all rows counted in full.
pub open spec fn entry_count(rows: Seq<Vec<FieldElem>>) -> int
    decreases rows.len(),
{
    if rows.len() == 0 {
        0
    } else {
        entry_count(rows.drop_last()) + rows.last()@.len()
    }
}

/// Taking a table's rows as sequences keeps every row whole, padding
/// included: the `i`-th row seen is the `i`-th row, and all the rows
/// together hold every entry of the table.
pub proof fn law_rows_view_keeps_every_entry(rows: Seq<Vec<FieldElem>>)
    ensures
        rows_view(rows).len() == rows.len(),
        forall|i: int| 0 <= i < rows.len() ==> #[trigger] rows_view(rows)[i] == rows[i]@,
        rows_view(rows).flatten().len() == entry_count(rows),
    decreases rows.len(),
{
    if rows.len() > 0 {
        let prefix = rows.drop_last();
        law_rows_view_keeps_every_entry(prefix);
        assert(rows_view(rows) =~= rows_view(prefix).push(rows.last()@));
        rows_view(prefix).lemma_flatten_push(rows.last()@);
    } else {
        assert(rows_view(rows) =~= Seq::<Seq<FieldElem>>::empty());
    }
}

/// The canonical bytes hold 32 bytes for every entry of the rule rows, of
/// the negative-predicate rows and of the whitespace entries: nothing is
/// left out.
pub proof fn law_canonical_bytes_cover_every_entry(g: &GrammarTables)
    ensures
        g.table_elems().len() == entry_count(g.rule_vec@) + entry_count(g.np_vec@)
            + g.ws_vec@.len(),
        g.canonical_bytes().len() == 32 * (entry_count(g.rule_vec@) + entry_count(g.np_vec@)
            + g.ws_vec@.len()),
{
    law_rows_view_keeps_every_entry(g.rule_vec@);
    law_rows_view_keeps_every_entry(g.np_vec@);
    lemma_elems_bytes_len(g.table_elems());
}

/// A commitment matches the tables exactly when its whole 32-byte digest
/// is the SHA-256 of their canonical bytes, so the tables accept one
/// digest and no other: two matching commitments have the same digest.
pub proof fn law_one_digest_accepted(g: &GrammarTables, c1: &GrammarCommitment, c2: &GrammarCommitment)
    ensures
        commitment_matches(g, c1) <==> c1.digest@ == sha256(g.canonical_bytes()),
        commitment_matches(g, c1) && commitment_matches(g, c2) ==> c1.digest@ == c2.digest@,
{
}

/// The canonical serialization loses no entry: tables with the same
/// serialization hold the same entries in the same order.
pub proof fn law_serialization_injective(g1: &GrammarTables, g2: &GrammarTables)
    requires
        g1.canonical_bytes() == g2.canonical_bytes(),
    ensures
        g1.table_elems() == g2.table_elems(),
{
    let s1 = g1.table_elems();
    let s2 = g2.table_elems();
    lemma_elems_bytes_len(s1);
    lemma_elems_bytes_len(s2);
    assert forall|k: int| 0 <= k < s1.len() implies s1[k] == s2[k] by {
        lemma_elems_bytes_block(s1, k);
        lemma_elems_bytes_block(s2, k);
        s1[k].lemma_le_bytes_injective(s2[k]);
    }
    assert(s1 =~= s2);
}

} // verus!
