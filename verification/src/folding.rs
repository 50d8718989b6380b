use crate::document::lemma_div_ceil;
use vstd::prelude::*;

verus! {

/// The number of folding rounds the prover runs for a parse tree of
/// `node_count` nodes taken `batch_size` nodes per round. Both counts are
/// first cut to 32 bits, and the quotient is rounded up.
pub open spec fn spec_num_rounds(node_count: usize, batch_size: usize) -> int {
    let n = node_count as int % 0x1_0000_0000;
    let b = batch_size as int % 0x1_0000_0000;
    (n + b - 1) / b
}

/// The number of folding rounds: `u32::div_ceil` of the node count and the
/// batch size, both cut to `u32`.
pub fn num_rounds(node_count: usize, batch_size: usize) -> (rounds: usize)
    requires
        batch_size as int % 0x1_0000_0000 != 0,
    ensures
        rounds == spec_num_rounds(node_count, batch_size),
{
    let n = node_count as u32;
    let b = batch_size as u32;
    assert(n == node_count as int % 0x1_0000_0000) by (bit_vector)
        requires
            n == node_count as u32,
    ;
    assert(b == batch_size as int % 0x1_0000_0000) by (bit_vector)
        requires
            b == batch_size as u32,
    ;
    proof {
        lemma_div_ceil(n as int, b as int);
    }
    let q = n / b;
    let r = if n % b == 0 {
        q
    } else {
        q + 1
    };
    r as usize
}

/// The sum of a sequence of lengths.
pub open spec fn seq_sum(s: Seq<usize>) -> int
    decreases s.len(),
{
    if s.len() == 0 {
        0
    } else {
        seq_sum(s.drop_last()) + s.last()
    }
}

/// The sum of no lengths is zero, and adding a length adds it in full.
pub proof fn law_seq_sum_adds(s: Seq<usize>, x: usize)
    ensures
        seq_sum(Seq::<usize>::empty()) == 0,
        seq_sum(s.push(x)) == seq_sum(s) + x,
{
    assert(s.push(x).drop_last() =~= s);
}

/// A sum of lengths never decreases as lengths are added.
proof fn lemma_seq_sum_prefix(s: Seq<usize>, i: int)
    requires
        0 <= i <= s.len(),
    ensures
        0 <= seq_sum(s.take(i)) <= seq_sum(s),
    decreases s.len() - i,
{
    if i < s.len() {
        lemma_seq_sum_prefix(s, i + 1);
        assert(s.take(i + 1).drop_last() =~= s.take(i));
    } else {
        assert(s.take(i) =~= s);
    }
    lemma_seq_sum_nonneg(s.take(i));
}

proof fn lemma_seq_sum_nonneg(s: Seq<usize>)
    ensures
        seq_sum(s) >= 0,
    decreases s.len(),
{
    if s.len() > 0 {
        lemma_seq_sum_nonneg(s.drop_last());
    }
}

/// The offset of the primary public inputs in the full initial state: the
/// initial state starts with the committed inputs, one block per key
/// length.
pub fn z0_offset(key_lengths: &Vec<usize>) -> (offset: usize)
    requires
        seq_sum(key_lengths@) <= usize::MAX,
    ensures
        offset == seq_sum(key_lengths@),
{
    let mut total: usize = 0;
    let n = key_lengths.len();
    for i in 0..n
        invariant
            n == key_lengths@.len(),
            seq_sum(key_lengths@) <= usize::MAX,
            total == seq_sum(key_lengths@.take(i as int)),
    {
        proof {
            lemma_seq_sum_prefix(key_lengths@, i + 1);
            assert(key_lengths@.take(i + 1).drop_last() =~= key_lengths@.take(i as int));
        }
        total = total + key_lengths[i];
    }
    assert(key_lengths@.take(n as int) =~= key_lengths@);
    total
}

/// The primary public inputs: the full initial state with the committed
/// inputs (whose lengths are `key_lengths`) cut off its front.
pub fn primary_z0<T: Copy>(z0_full: &Vec<T>, key_lengths: &Vec<usize>) -> (z0: Vec<T>)
    requires
        seq_sum(key_lengths@) <= z0_full@.len(),
    ensures
        z0@ == z0_full@.subrange(seq_sum(key_lengths@), z0_full@.len() as int),
        z0@.len() == z0_full@.len() - seq_sum(key_lengths@),
{
    let n = z0_full.len();
    let offset = z0_offset(key_lengths);
    let mut z0: Vec<T> = Vec::new();
    for i in offset..n
        invariant
            offset <= n,
            n == z0_full@.len(),
            offset == seq_sum(key_lengths@),
            z0@ == z0_full@.subrange(offset as int, i as int),
    {
        z0.push(z0_full[i]);
        assert(z0@ =~= z0_full@.subrange(offset as int, i + 1));
    }
    z0
}

/// The witness capacity to reserve before synthesizing the circuit of
/// `round`: none for the first round, which also builds the constraint
/// matrices; for a later round, which reuses the saved matrices of
/// `num_constraints` constraints, room for two assignments per constraint.
pub fn circuit_reservation(round: usize, num_constraints: usize) -> (r: Option<usize>)
    requires
        round != 0 ==> num_constraints * 2 <= usize::MAX,
    ensures
        r == if round == 0 {
            None
        } else {
            Some((num_constraints * 2) as usize)
        },
{
    if round != 0 {
        Some(num_constraints * 2)
    } else {
        None
    }
}

/// One step of a proving run.
#[derive(Clone, Copy, PartialEq, Eq, Structural, Debug)]
pub enum ProverStep {
    /// Synthesize the circuit (witness and constraints) of the round.
    Synthesize(usize),
    /// Fold the round's circuit into the recursive proof, with the round's
    /// commitment blinds and hints.
    Fold(usize),
    /// Compress the recursive proof into the final SNARK.
    Compress,
}

/// The step at position `t` of a proving run of `n` rounds: the circuit of
/// round 0 is synthesized first (it also sets the recursive proof up);
/// then each round is folded in turn, the circuit of the next round being
/// synthesized right after; the proof is compressed last.
pub open spec fn schedule_at(n: nat, t: nat) -> Option<ProverStep> {
    let last: nat = if n == 0 {
        1
    } else {
        2 * n
    };
    if t < last {
        if t % 2 == 0 {
            Some(ProverStep::Synthesize((t / 2) as usize))
        } else {
            Some(ProverStep::Fold((t / 2) as usize))
        }
    } else if t == last {
        Some(ProverStep::Compress)
    } else {
        None
    }
}

/// The progress of a proving run of `n_rounds` folding rounds.
pub struct RoundSchedule {
    n_rounds: usize,
    synthesized: usize,
    folded: usize,
    finished: bool,
}

impl RoundSchedule {
    /// The number of rounds.
    pub closed spec fn rounds(&self) -> nat {
        self.n_rounds as nat
    }

    /// How many steps of the run have been done.
    pub closed spec fn position(&self) -> nat {
        (self.synthesized + self.folded + if self.finished {
            1nat
        } else {
            0nat
        }) as nat
    }

    /// The run's progress is consistent.
    #[verifier::type_invariant]
    spec fn wf(&self) -> bool {
        &&& self.folded <= self.n_rounds
        &&& self.folded <= self.synthesized <= self.folded + 1
        &&& self.synthesized <= if self.n_rounds == 0 {
            1
        } else {
            self.n_rounds as int
        }
        &&& self.finished ==> {
            &&& self.folded == self.n_rounds
            &&& self.synthesized == if self.n_rounds == 0 {
                1
            } else {
                self.n_rounds as int
            }
        }
    }

    /// The step to take in this state.
    pub closed spec fn spec_next(&self) -> Option<ProverStep> {
        if self.finished {
            None
        } else if self.folded == self.synthesized && (self.synthesized < self.n_rounds
            || self.synthesized == 0) {
            Some(ProverStep::Synthesize(self.synthesized))
        } else if self.folded < self.n_rounds {
            Some(ProverStep::Fold(self.folded))
        } else {
            Some(ProverStep::Compress)
        }
    }

    /// A run of `n_rounds` rounds that has done nothing yet.
    pub fn new(n_rounds: usize) -> (s: RoundSchedule)
        ensures
            s.rounds() == n_rounds,
            s.position() == 0,
    {
        RoundSchedule { n_rounds, synthesized: 0, folded: 0, finished: false }
    }

    /// The step to take next, or `None` once the proof is compressed.
    pub fn next_step(&self) -> (step: Option<ProverStep>)
        ensures
            step == schedule_at(self.rounds(), self.position()),
    {
        proof {
            use_type_invariant(self);
            self.lemma_next_is_scheduled();
        }
        if self.finished {
            None
        } else if self.folded == self.synthesized && (self.synthesized < self.n_rounds
            || self.synthesized == 0) {
            Some(ProverStep::Synthesize(self.synthesized))
        } else if self.folded < self.n_rounds {
            Some(ProverStep::Fold(self.folded))
        } else {
            Some(ProverStep::Compress)
        }
    }

    /// Records that the step `next_step` gave has been done.
    pub fn advance(&mut self)
        requires
            schedule_at(old(self).rounds(), old(self).position()) is Some,
        ensures
            final(self).rounds() == old(self).rounds(),
            final(self).position() == old(self).position() + 1,
    {
        proof {
            use_type_invariant(&*self);
            self.lemma_next_is_scheduled();
        }
        if self.folded == self.synthesized && (self.synthesized < self.n_rounds
            || self.synthesized == 0) {
            self.synthesized = self.synthesized + 1;
        } else if self.folded < self.n_rounds {
            self.folded = self.folded + 1;
        } else {
            self.finished = true;
        }
    }

    proof fn lemma_next_is_scheduled(&self)
        requires
            self.wf(),
        ensures
            self.spec_next() == schedule_at(self.rounds(), self.position()),
    {
    }
}

/// In a run of `n` rounds, every round below `n` is folded once, at
/// position `2i + 1`, right after its circuit is synthesized at position
/// `2i`; nothing else is folded, and the compression comes after the last
/// fold and ends the run.
pub proof fn law_each_round_folded_once(n: usize, t: nat, i: usize)
    ensures
        schedule_at(n as nat, t) == Some(ProverStep::Fold(i)) <==> (i < n && t == 2 * i + 1),
        i < n ==> schedule_at(n as nat, (2 * i) as nat) == Some(ProverStep::Synthesize(i)),
        schedule_at(n as nat, t) == Some(ProverStep::Compress) <==> t == if n == 0 {
            1
        } else {
            2 * n
        },
        schedule_at(n as nat, t) is None <==> t > if n == 0 {
            1
        } else {
            2 * n
        },
{
}

/// The prover's rounds are the verifier's steps: when the node count and
/// the batch size fit in 32 bits, cutting them to `u32` changes nothing.
pub proof fn law_rounds_match_verifier_steps(node_count: usize, batch_size: usize)
    requires
        node_count < 0x1_0000_0000,
        0 < batch_size < 0x1_0000_0000,
    ensures
        spec_num_rounds(node_count, batch_size) == (node_count + batch_size - 1) / (
        batch_size as int),
{
}

} // verus!
