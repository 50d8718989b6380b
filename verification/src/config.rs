use vstd::prelude::*;

verus! {

broadcast use vstd::string::group_string_axioms;

/// The command line options of the Coral tool.
pub struct Options {
    /// Commit the grammar.
    pub commit: bool,
    /// Prove public document against committed grammar.
    pub prove: bool,
    /// Verify proof against public document and grammar commitment.
    pub verify: bool,
    /// End-to-end: commit, prove, and verify.
    pub e2e: bool,
    /// Optional name for grammar commitment file.
    pub cmt_name: Option<String>,
    /// Optional name for .proof file.
    pub proof_name: Option<String>,
    /// Public document file (required for prove/verify/e2e).
    pub doc: Option<String>,
    /// Grammar .pest file (required for commit/prove/e2e).
    pub grammar: Option<String>,
    /// Metrics and other output information.
    pub metrics: Option<String>,
    /// Batch size.
    pub batch_size: usize,
}

/// A mode of the tool.
#[derive(Clone, Copy, PartialEq, Eq, Structural, Debug)]
pub enum Mode {
    /// Write a grammar commitment.
    Commit,
    /// Commit, prove and verify in one run.
    EndToEnd,
    /// Prove a document against a committed grammar.
    Prove,
    /// Verify a proof against a document and a grammar commitment.
    Verify,
}

/// A mode to run, with the input files it reads.
pub struct Stage {
    /// The mode.
    pub mode: Mode,
    /// The grammar file, for the modes that read one.
    pub grammar: Option<String>,
    /// The document file, for the modes that read one.
    pub doc: Option<String>,
}

/// An input file that a requested mode needs and that was not given.
#[derive(Clone, Copy, PartialEq, Eq, Structural, Debug)]
pub enum MissingInput {
    /// No grammar file (-g) for the mode.
    Grammar(Mode),
    /// No document file (-d) for the mode.
    Document(Mode),
}

/// The modes to run, in order, and the missing input that stops the run
/// after them, if any.
pub struct RunPlan {
    /// Modes whose inputs are all given, in the order they run.
    pub stages: Vec<Stage>,
    /// The input missing for the next requested mode.
    pub missing: Option<MissingInput>,
}

/// Whether a mode reads the grammar file.
pub open spec fn needs_grammar(m: Mode) -> bool {
    m != Mode::Verify
}

/// Whether a mode reads the document file.
pub open spec fn needs_doc(m: Mode) -> bool {
    m != Mode::Commit
}

/// The modes the flags request, in the order they run: commit, then the
/// end-to-end run; proving and verifying alone run only without it.
pub open spec fn requested_modes(o: &Options) -> Seq<Mode> {
    (if o.commit {
        seq![Mode::Commit]
    } else {
        Seq::empty()
    }) + (if o.e2e {
        seq![Mode::EndToEnd]
    } else {
        Seq::empty()
    }) + (if o.prove && !o.e2e {
        seq![Mode::Prove]
    } else {
        Seq::empty()
    }) + (if o.verify && !o.e2e {
        seq![Mode::Verify]
    } else {
        Seq::empty()
    })
}

/// The input a mode misses, the grammar being looked for first.
pub open spec fn missing_for(o: &Options, m: Mode) -> Option<MissingInput> {
    if needs_grammar(m) && o.grammar is None {
        Some(MissingInput::Grammar(m))
    } else if needs_doc(m) && o.doc is None {
        Some(MissingInput::Document(m))
    } else {
        None
    }
}

/// The number of requested modes, from the first, that have their inputs.
pub open spec fn runnable_prefix(o: &Options, modes: Seq<Mode>) -> nat
    decreases modes.len(),
{
    if modes.len() == 0 {
        0
    } else if missing_for(o, modes[0]) is Some {
        0
    } else {
        1 + runnable_prefix(o, modes.drop_first())
    }
}

/// Every mode but verification reads the grammar, and every mode but
/// commitment reads the document: a mode misses its grammar when it reads
/// one and none is given; otherwise it misses its document when it reads
/// one and none is given; otherwise it has all its inputs.
pub proof fn law_inputs_each_mode_reads(o: &Options, m: Mode)
    ensures
        m != Mode::Verify && o.grammar is None ==> missing_for(o, m) == Some(
            MissingInput::Grammar(m),
        ),
        (m == Mode::Verify || o.grammar is Some) && m != Mode::Commit && o.doc is None
            ==> missing_for(o, m) == Some(MissingInput::Document(m)),
        (m == Mode::Verify || o.grammar is Some) && (m == Mode::Commit || o.doc is Some)
            ==> missing_for(o, m) is None,
{
}

/// An end-to-end run is requested by its flag alone (besides commitment,
/// which runs before it); proving and verifying are then not run apart.
pub proof fn law_end_to_end_request(o: &Options)
    requires
        o.e2e,
    ensures
        requested_modes(o) == if o.commit {
            seq![Mode::Commit, Mode::EndToEnd]
        } else {
            seq![Mode::EndToEnd]
        },
{
    if o.commit {
        assert(requested_modes(o) =~= seq![Mode::Commit, Mode::EndToEnd]);
    } else {
        assert(requested_modes(o) =~= seq![Mode::EndToEnd]);
    }
}

impl MissingInput {
    /// The message the tool stops with.
    pub fn message(&self) -> (msg: &'static str)
        ensures
            msg@ == match *self {
                MissingInput::Grammar(Mode::Commit) => "Grammar file (-g) is required for --commit"@,
                MissingInput::Grammar(Mode::EndToEnd) => "Grammar file (-g) is required for --e2e"@,
                MissingInput::Grammar(Mode::Prove) => "Grammar file (-g) is required for --prove"@,
                MissingInput::Grammar(Mode::Verify) => "Grammar file (-g) is required for --verify"@,
                MissingInput::Document(Mode::Commit) => "Document file (-d) is required for --commit"@,
                MissingInput::Document(Mode::EndToEnd) => "Document file (-d) is required for --e2e"@,
                MissingInput::Document(Mode::Prove) => "Document file (-d) is required for --prove"@,
                MissingInput::Document(Mode::Verify) => "Document file (-d) is required for --verify"@,
            },
    {
        match *self {
            MissingInput::Grammar(Mode::Commit) => "Grammar file (-g) is required for --commit",
            MissingInput::Grammar(Mode::EndToEnd) => "Grammar file (-g) is required for --e2e",
            MissingInput::Grammar(Mode::Prove) => "Grammar file (-g) is required for --prove",
            MissingInput::Grammar(Mode::Verify) => "Grammar file (-g) is required for --verify",
            MissingInput::Document(Mode::Commit) => "Document file (-d) is required for --commit",
            MissingInput::Document(Mode::EndToEnd) => "Document file (-d) is required for --e2e",
            MissingInput::Document(Mode::Prove) => "Document file (-d) is required for --prove",
            MissingInput::Document(Mode::Verify) => "Document file (-d) is required for --verify",
        }
    }
}

/// The input file `field` when the mode reads it.
fn input_for(field: &Option<String>, needed: bool) -> (r: Option<String>)
    ensures
        r == if needed {
            *field
        } else {
            None
        },
{
    if needed {
        match field {
            Some(s) => Some(s.clone()),
            None => None,
        }
    } else {
        None
    }
}

impl Options {
    /// The modes to run and the input that stops the run, if any: the
    /// requested modes run in order until one misses an input file.
    pub fn plan(&self) -> (p: RunPlan)
        ensures
            p.stages@.len() == runnable_prefix(self, requested_modes(self)),
            forall|i: int|
                0 <= i < p.stages@.len() ==> {
                    let m = requested_modes(self)[i];
                    &&& (#[trigger] p.stages@[i]).mode == m
                    &&& p.stages@[i].grammar == if needs_grammar(m) {
                        self.grammar
                    } else {
                        None
                    }
                    &&& p.stages@[i].doc == if needs_doc(m) {
                        self.doc
                    } else {
                        None
                    }
                },
            forall|i: int|
                0 <= i < p.stages@.len() ==> {
                    &&& ((#[trigger] p.stages@[i]).mode != Mode::Commit ==> p.stages@[i].doc
                        is Some && p.stages@[i].doc == self.doc)
                    &&& (p.stages@[i].mode == Mode::Commit ==> p.stages@[i].doc is None)
                    &&& (p.stages@[i].mode != Mode::Verify ==> p.stages@[i].grammar is Some
                        && p.stages@[i].grammar == self.grammar)
                    &&& (p.stages@[i].mode == Mode::Verify ==> p.stages@[i].grammar is None)
                },
            p.missing == if p.stages@.len() < requested_modes(self).len() {
                missing_for(self, requested_modes(self)[p.stages@.len() as int])
            } else {
                None
            },
    {
        let mut modes: Vec<Mode> = Vec::new();
        if self.commit {
            modes.push(Mode::Commit);
        }
        if self.e2e {
            modes.push(Mode::EndToEnd);
        }
        if self.prove && !self.e2e {
            modes.push(Mode::Prove);
        }
        if self.verify && !self.e2e {
            modes.push(Mode::Verify);
        }
        assert(modes@ =~= requested_modes(self));
        let mut stages: Vec<Stage> = Vec::new();
        let n = modes.len();
        let mut i: usize = 0;
        assert(modes@.skip(0) =~= modes@);
        while i < n
            invariant
                n == modes@.len(),
                modes@ == requested_modes(self),
                i <= n,
                stages@.len() == i,
                runnable_prefix(self, modes@) == i + runnable_prefix(self, modes@.skip(i as int)),
                forall|j: int|
                    0 <= j < i ==> {
                        let m = modes@[j];
                        &&& (#[trigger] stages@[j]).mode == m
                        &&& stages@[j].grammar == if needs_grammar(m) {
                            self.grammar
                        } else {
                            None
                        }
                        &&& stages@[j].doc == if needs_doc(m) {
                            self.doc
                        } else {
                            None
                        }
                        &&& (needs_doc(m) ==> self.doc is Some)
                        &&& (needs_grammar(m) ==> self.grammar is Some)
                    },
            decreases n - i,
        {
            let m = modes[i];
            let grammar_needed = m != Mode::Verify;
            let doc_needed = m != Mode::Commit;
            assert(modes@.skip(i as int)[0] == m);
            if grammar_needed && self.grammar.is_none() {
                return RunPlan { stages, missing: Some(MissingInput::Grammar(m)) };
            }
            if doc_needed && self.doc.is_none() {
                return RunPlan { stages, missing: Some(MissingInput::Document(m)) };
            }
            assert(modes@.skip(i as int).drop_first() =~= modes@.skip(i + 1));
            let grammar = input_for(&self.grammar, grammar_needed);
            let doc = input_for(&self.doc, doc_needed);
            stages.push(Stage { mode: m, grammar, doc });
            i = i + 1;
        }
        RunPlan { stages, missing: None }
    }
}

} // verus!
