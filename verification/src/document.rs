use crate::field::{field_add, field_mul, field_sub, modulus, FieldElem};
use vstd::prelude::*;

verus! {

/// The factor by which a character hash is shifted before its position
/// is added, so that hash and position occupy separate bit ranges.
pub open spec fn position_shift() -> int {
    0x1_0000_0000
}

/// The running evaluation of the permutation polynomial over a document,
/// given the hash of each of its characters: the pair of the evaluation
/// and of the number of characters counted so far.
///
/// A character whose hash equals `epsilon` (the hash of the empty string)
/// is skipped. Every other character, the `k`-th one counted, contributes
/// the factor `chal - (hash * 2^32 + k)`, all in the field.
pub open spec fn running_eval(hashes: Seq<FieldElem>, epsilon: FieldElem, chal: FieldElem) -> (
    int,
    nat,
)
    decreases hashes.len(),
{
    if hashes.len() == 0 {
        (1, 0)
    } else {
        let (eval, ctr) = running_eval(hashes.drop_last(), epsilon, chal);
        let h = hashes.last();
        if h == epsilon {
            (eval, ctr)
        } else {
            let root = ((h.value() * position_shift()) % modulus() + ctr) % modulus();
            ((eval * ((chal.value() - root) % modulus())) % modulus(), ctr + 1)
        }
    }
}

/// Characters whose hash is the hash of the empty string do not count:
/// the evaluation and the counter are those of the document without them,
/// and the counter is the number of characters that remain.
pub proof fn law_epsilon_characters_ignored(hashes: Seq<FieldElem>, epsilon: FieldElem, chal: FieldElem)
    ensures
        running_eval(hashes, epsilon, chal) == running_eval(
            hashes.filter(|h: FieldElem| h != epsilon),
            epsilon,
            chal,
        ),
        running_eval(hashes, epsilon, chal).1 == hashes.filter(|h: FieldElem| h != epsilon).len(),
    decreases hashes.len(),
{
    reveal_with_fuel(Seq::<_>::filter, 1);
    if hashes.len() > 0 {
        let pred = |h: FieldElem| h != epsilon;
        law_epsilon_characters_ignored(hashes.drop_last(), epsilon, chal);
        let sub = hashes.drop_last().filter(pred);
        if pred(hashes.last()) {
            assert(hashes.filter(pred).drop_last() =~= sub);
            assert(hashes.filter(pred).last() == hashes.last());
        } else {
            assert(hashes.filter(pred) =~= sub);
        }
    }
}

/// Each counted character multiplies the evaluation by the challenge minus
/// its root, `hash * 2^32 + k`, where `k` is the number of characters
/// counted before it (the full count, never cut); a character whose hash
/// is the empty string's leaves the evaluation and the count unchanged.
pub proof fn law_each_character_factor(
    hs: Seq<FieldElem>,
    h: FieldElem,
    epsilon: FieldElem,
    chal: FieldElem,
)
    requires
        chal.is_canonical(),
    ensures
        h != epsilon ==> running_eval(hs.push(h), epsilon, chal).0 == (running_eval(
            hs,
            epsilon,
            chal,
        ).0 * (chal.value() - (h.value() * 0x1_0000_0000 + hs.filter(
            |x: FieldElem| x != epsilon,
        ).len()))) % modulus(),
        h != epsilon ==> running_eval(hs.push(h), epsilon, chal).1 == running_eval(
            hs,
            epsilon,
            chal,
        ).1 + 1,
        h == epsilon ==> running_eval(hs.push(h), epsilon, chal) == running_eval(hs, epsilon, chal),
{
    let p = modulus();
    assert(hs.push(h).drop_last() =~= hs);
    law_epsilon_characters_ignored(hs, epsilon, chal);
    if h != epsilon {
        let e = running_eval(hs, epsilon, chal).0;
        let k = running_eval(hs, epsilon, chal).1 as int;
        let a = h.value() * 0x1_0000_0000;
        let c = chal.value();
        chal.lemma_value_nonneg();
        assert(a % p % p == a % p) by {
            vstd::arithmetic::div_mod::lemma_mod_twice(a, p);
        }
        vstd::arithmetic::div_mod::lemma_add_mod_noop(a % p, k, p);
        vstd::arithmetic::div_mod::lemma_add_mod_noop(a, k, p);
        let root = (a % p + k) % p;
        assert(root == (a + k) % p);
        vstd::arithmetic::div_mod::lemma_small_mod(c as nat, p as nat);
        vstd::arithmetic::div_mod::lemma_sub_mod_noop(c, a + k, p);
        assert((c - root) % p == (c - (a + k)) % p);
        vstd::arithmetic::div_mod::lemma_mul_mod_noop_right(e, c - (a + k), p);
    }
}

/// The evaluation that the circuit must expose for the public document
/// whose characters hash to `char_hashes`, where `epsilon` is the hash of
/// the empty string and `perm_chal` the permutation challenge.
pub fn expected_running_eval(char_hashes: &Vec<FieldElem>, epsilon: FieldElem, perm_chal: FieldElem) -> (eval: FieldElem)
    ensures
        eval.value() == running_eval(char_hashes@, epsilon, perm_chal).0,
{
    proof {
        use_type_invariant(&perm_chal);
    }
    let shift = FieldElem::from_u64(0x1_0000_0000);
    let mut eval = FieldElem::one();
    let mut doc_ctr: u64 = 0;
    let n = char_hashes.len();
    assert(char_hashes@.take(0) =~= Seq::<FieldElem>::empty());
    for i in 0..n
        invariant
            n == char_hashes@.len(),
            shift.value() == position_shift(),
            perm_chal.is_canonical(),
            eval.value() == running_eval(char_hashes@.take(i as int), epsilon, perm_chal).0,
            doc_ctr == running_eval(char_hashes@.take(i as int), epsilon, perm_chal).1,
            doc_ctr <= i,
    {
        let h = char_hashes[i];
        proof {
            use_type_invariant(&h);
            use_type_invariant(&eval);
            use_type_invariant(&shift);
            assert(char_hashes@.take(i + 1).drop_last() =~= char_hashes@.take(i as int));
            assert(char_hashes@.take(i + 1).last() == h);
        }
        if h != epsilon {
            let scaled = field_mul(h, shift);
            proof {
                use_type_invariant(&scaled);
            }
            let ctr = FieldElem::from_u64(doc_ctr);
            proof {
                use_type_invariant(&ctr);
                assert(ctr.value() % modulus() == doc_ctr);
            }
            let root = field_add(scaled, ctr);
            proof {
                use_type_invariant(&root);
            }
            let diff = field_sub(perm_chal, root);
            proof {
                use_type_invariant(&diff);
            }
            eval = field_mul(eval, diff);
            doc_ctr = doc_ctr + 1;
        }
    }
    assert(char_hashes@.take(n as int) =~= char_hashes@);
    eval
}

/// Whether the evaluation `claimed` that the proof exposes matches the
/// one the public document (given by its character hashes) determines.
pub fn document_eval_matches(
    claimed: FieldElem,
    char_hashes: &Vec<FieldElem>,
    epsilon: FieldElem,
    perm_chal: FieldElem,
) -> (ok: bool)
    ensures
        ok == (claimed.value() == running_eval(char_hashes@, epsilon, perm_chal).0),
{
    let expected = expected_running_eval(char_hashes, epsilon, perm_chal);
    proof {
        claimed.lemma_eq_iff_value_eq(expected);
    }
    claimed == expected
}

/// The number of folding steps the verifier checks: the tree size divided
/// by the batch size, rounded up.
pub fn verifier_num_steps(tree_size: usize, batch_size: usize) -> (steps: usize)
    requires
        batch_size > 0,
    ensures
        steps == (tree_size + batch_size - 1) / (batch_size as int),
{
    let q = tree_size / batch_size;
    proof {
        lemma_div_ceil(tree_size as int, batch_size as int);
    }
    if tree_size % batch_size == 0 {
        q
    } else {
        q + 1
    }
}

/// Rounding a quotient up adds one exactly when the division leaves a
/// remainder, and the rounded quotient never exceeds the dividend.
pub proof fn lemma_div_ceil(a: int, b: int)
    requires
        a >= 0,
        b > 0,
    ensures
        (a + b - 1) / b == a / b + if a % b == 0 { 0int } else { 1int },
        a % b != 0 ==> a / b < a,
{
    let q = a / b;
    let r = a % b;
    assert(a == b * q + r && 0 <= r < b) by (nonlinear_arith)
        requires
            q == a / b,
            r == a % b,
            b > 0,
    ;
    assert(q >= 0) by (nonlinear_arith)
        requires
            a == b * q + r,
            0 <= r < b,
            a >= 0,
    ;
    if r == 0 {
        assert((a + b - 1) / b == q) by (nonlinear_arith)
            requires
                a == b * q,
                b > 0,
        ;
    } else {
        assert(a + b - 1 == b * (q + 1) + (r - 1)) by (nonlinear_arith)
            requires
                a == b * q + r,
        ;
        assert((a + b - 1) / b == q + 1) by (nonlinear_arith)
            requires
                a + b - 1 == b * (q + 1) + (r - 1),
                0 <= r - 1 < b,
                b > 0,
        ;
        assert(q < a) by (nonlinear_arith)
            requires
                a == b * q + r,
                r >= 1,
                b >= 1,
                q >= 0,
        ;
    }
}

} // verus!
