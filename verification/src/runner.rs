//! The stage runner: a state machine that drives the ordered stage list.
//!
//! The runner never touches the disk or the network itself. The caller
//! asks `next_action` what to do, performs the observation or the producer
//! call, and reports the result back (`handle_validity`,
//! `handle_producer`). The runner decides everything: a stage whose output
//! artifact is already valid is skipped without a producer call; a
//! producer failure halts the pipeline at once, so later stages never run.
//!
//! A producer-call counter records how many producer invocations the
//! runner has demanded; `lemma_idempotent_run` proves that a run in which
//! every artifact check found a valid artifact demands none at all.

use vstd::prelude::*;
use crate::checkpoint::ArtifactObservation;
use crate::checkpoint::spec_is_valid;
use crate::checkpoint::is_valid;
use crate::errors::PipelineError;
use crate::stages::Producer;
use crate::stages::Stage;
use crate::stages::args_view;

verus! {

/// The number of `false` entries in a sequence of validity observations:
/// how many checked artifacts were invalid.
pub open spec fn count_false(s: Seq<bool>) -> nat
    decreases s.len(),
{
    if s.len() == 0 {
        0
    } else {
        count_false(s.drop_last()) + (if s.last() {
            0nat
        } else {
            1nat
        })
    }
}

proof fn lemma_count_false_le_len(s: Seq<bool>)
    ensures
        count_false(s) <= s.len(),
    decreases s.len(),
{
    if s.len() > 0 {
        lemma_count_false_le_len(s.drop_last());
    }
}

proof fn lemma_count_false_push(s: Seq<bool>, b: bool)
    ensures
        count_false(s.push(b)) == count_false(s) + (if b {
            0nat
        } else {
            1nat
        }),
{
    assert(s.push(b).drop_last() =~= s);
    assert(s.push(b).last() == b);
}

/// A run in which every artifact check found a valid artifact contains no
/// invalid observation, hence demands no producer call.
pub proof fn lemma_all_valid_no_producer_calls(checks: Seq<bool>)
    requires
        forall|i: int| 0 <= i < checks.len() ==> checks[i],
    ensures
        count_false(checks) == 0,
    decreases checks.len(),
{
    if checks.len() > 0 {
        lemma_all_valid_no_producer_calls(checks.drop_last());
    }
}

/// The view of a command line: the program followed by each argument,
/// separated by single spaces.
pub open spec fn command_line_view(program: Seq<char>, args: Seq<Seq<char>>) -> Seq<char>
    decreases args.len(),
{
    if args.len() == 0 {
        program
    } else {
        command_line_view(program, args.drop_last()) + seq![' '] + args.last()
    }
}

/// Renders the command line of an external tool for diagnostics: the
/// program and its arguments joined by single spaces.
pub fn command_line(program: &String, args: &Vec<String>) -> (r: String)
    ensures
        r@ == command_line_view(program@, args_view(args@)),
{
    proof {
        reveal_strlit(" ");
    }
    let mut r: String = program.clone();
    let n = args.len();
    for i in 0..n
        invariant
            n == args@.len(),
            r@ =~= command_line_view(program@, args_view(args@).take(i as int)),
    {
        r.append(" ");
        r.append(args[i].as_str());
        proof {
            reveal_strlit(" ");
            let pref = args_view(args@).take(i as int);
            let next = args_view(args@).take(i + 1);
            assert(next.drop_last() =~= pref);
            assert(next.last() == args@[i as int]@);
            assert(" "@ =~= seq![' ']);
        }
    }
    proof {
        assert(args_view(args@).take(args@.len() as int) =~= args_view(args@));
    }
    r
}

/// What the caller must do next.
pub enum Action {
    /// Observe the output artifact of stage `index` on disk and report it
    /// through `handle_validity`.
    CheckArtifact { index: usize },
    /// Run the producer of stage `index` and report the outcome through
    /// `handle_producer`.
    RunProducer { index: usize },
    /// Every stage is done; the pipeline succeeded.
    Finished,
    /// The pipeline aborted on a producer failure; nothing more may run.
    Halted,
}

/// Drives an ordered list of pipeline stages, one at a time, skipping any
/// stage whose output artifact the caller observed to be valid.
pub struct StageRunner {
    /// The ordered stage list; never changed after construction.
    pub stages: Vec<Stage>,
    /// The index of the stage currently being handled; stages before it
    /// are complete (skipped or produced).
    pub pos: usize,
    /// True when the current stage's artifact was observed invalid and
    /// the producer's outcome has not been reported yet.
    pub awaiting: bool,
    /// True once a producer failed; the pipeline is halted for good.
    pub failed: bool,
    /// How many producer invocations the runner has demanded.
    pub producer_calls: u64,
    /// The validity observations reported so far, in order.
    pub checks: Ghost<Seq<bool>>,
}

impl StageRunner {
    /// True in exactly one of the waiting states (checking or awaiting a
    /// producer outcome) and in the halted state: the states in which the
    /// current stage is not yet complete.
    pub open spec fn at_open_stage(self) -> bool {
        self.awaiting || self.failed
    }

    /// The runner's invariant: the cursor stays within the stage list,
    /// at most one stage is open, and the producer-call counter equals
    /// the number of invalid observations reported so far.
    pub open spec fn inv(self) -> bool {
        &&& self.pos <= self.stages@.len()
        &&& !(self.awaiting && self.failed)
        &&& (self.at_open_stage() ==> self.pos < self.stages@.len())
        &&& self.checks@.len() == self.pos + (if self.at_open_stage() {
            1int
        } else {
            0int
        })
        &&& self.producer_calls == count_false(self.checks@)
    }

    /// What the caller must do in the current state.
    pub open spec fn spec_next_action(self) -> Action {
        if self.failed {
            Action::Halted
        } else if self.awaiting {
            Action::RunProducer { index: self.pos }
        } else if self.pos == self.stages@.len() {
            Action::Finished
        } else {
            Action::CheckArtifact { index: self.pos }
        }
    }

    /// A fresh runner over `stages`: positioned at the first stage, with
    /// no producer call demanded yet.
    pub fn new(stages: Vec<Stage>) -> (r: StageRunner)
        ensures
            r.inv(),
            r.stages == stages,
            r.pos == 0,
            !r.awaiting,
            !r.failed,
            r.producer_calls == 0,
            r.checks@ =~= Seq::<bool>::empty(),
    {
        StageRunner {
            stages,
            pos: 0,
            awaiting: false,
            failed: false,
            producer_calls: 0,
            checks: Ghost(Seq::empty()),
        }
    }

    /// Tells the caller what to do next.
    pub fn next_action(&self) -> (a: Action)
        requires
            self.inv(),
        ensures
            a == self.spec_next_action(),
    {
        if self.failed {
            Action::Halted
        } else if self.awaiting {
            Action::RunProducer { index: self.pos }
        } else if self.pos == self.stages.len() {
            Action::Finished
        } else {
            Action::CheckArtifact { index: self.pos }
        }
    }

    /// Reports what the caller observed of the current stage's output
    /// artifact. A valid artifact completes the stage with no producer
    /// call; an invalid one makes the runner demand the producer.
    pub fn handle_validity(&mut self, obs: &ArtifactObservation)
        requires
            old(self).inv(),
            old(self).spec_next_action() is CheckArtifact,
        ensures
            final(self).inv(),
            final(self).stages == old(self).stages,
            !final(self).failed,
            final(self).checks@ =~= old(self).checks@.push(spec_is_valid(*obs)),
            spec_is_valid(*obs) ==> {
                &&& final(self).pos == old(self).pos + 1
                &&& !final(self).awaiting
                &&& final(self).producer_calls == old(self).producer_calls
            },
            !spec_is_valid(*obs) ==> {
                &&& final(self).pos == old(self).pos
                &&& final(self).awaiting
                &&& final(self).producer_calls == old(self).producer_calls + 1
            },
    {
        proof {
            lemma_count_false_push(self.checks@, spec_is_valid(*obs));
            lemma_count_false_le_len(self.checks@);
        }
        let n = self.stages.len();
        assert(self.pos < n);
        let valid = is_valid(obs);
        self.checks = Ghost(self.checks@.push(valid));
        if valid {
            self.pos = self.pos + 1;
        } else {
            self.awaiting = true;
            assert(self.producer_calls < u64::MAX);
            self.producer_calls = self.producer_calls + 1;
        }
    }

    /// Reports the outcome of the demanded producer call. On success the
    /// stage is complete and the runner moves on. On failure the pipeline
    /// halts, and the error identifies the stage: a failed fetch is a
    /// network error, a failed conversion an I/O error, and a failed
    /// external tool carries the stage name, the command line, and the
    /// captured standard-error stream (`detail`).
    pub fn handle_producer(&mut self, ok: bool, detail: String) -> (r: Option<PipelineError>)
        requires
            old(self).inv(),
            old(self).spec_next_action() is RunProducer,
        ensures
            final(self).inv(),
            final(self).stages == old(self).stages,
            final(self).checks@ == old(self).checks@,
            final(self).producer_calls == old(self).producer_calls,
            ok ==> {
                &&& r is None
                &&& final(self).pos == old(self).pos + 1
                &&& !final(self).awaiting
                &&& !final(self).failed
            },
            !ok ==> {
                &&& final(self).pos == old(self).pos
                &&& final(self).failed
                &&& !final(self).awaiting
            },
            !ok ==> (match old(self).stages@[old(self).pos as int].producer {
                Producer::Fetch { url } => (r matches Some(
                    PipelineError::Network { detail: d },
                ) && d@ == detail@),
                Producer::Convert { input, threads } => (r matches Some(
                    PipelineError::Io { detail: d },
                ) && d@ == detail@),
                Producer::Tool { program, args } => (r matches Some(
                    PipelineError::ExternalTool { stage, command, stderr },
                ) && stage@ == old(self).stages@[old(self).pos as int].name@ && command@
                    == command_line_view(program@, args_view(args@)) && stderr@ == detail@),
            }),
    {
        let n = self.stages.len();
        assert(self.pos < n);
        self.awaiting = false;
        if ok {
            self.pos = self.pos + 1;
            None
        } else {
            self.failed = true;
            let stage = &self.stages[self.pos];
            let err = match &stage.producer {
                Producer::Fetch { url } => PipelineError::Network { detail },
                Producer::Convert { input, threads } => PipelineError::Io { detail },
                Producer::Tool { program, args } => PipelineError::ExternalTool {
                    stage: stage.name.clone(),
                    command: command_line(program, args),
                    stderr: detail,
                },
            };
            Some(err)
        }
    }

    /// Idempotence of a completed pipeline: in any reachable runner state
    /// whose every artifact check found a valid artifact — as on a second
    /// invocation after a successful run, with no external changes — the
    /// producer-call counter is zero.
    pub proof fn lemma_idempotent_run(self)
        requires
            self.inv(),
            forall|i: int| 0 <= i < self.checks@.len() ==> self.checks@[i],
        ensures
            self.producer_calls == 0,
    {
        lemma_all_valid_no_producer_calls(self.checks@);
    }
}

} // verus!
