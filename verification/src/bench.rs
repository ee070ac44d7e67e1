//! The benchmark driver: repeated invocations of one kernel on one workload,
//! with an optional warm-up that is not timed.
//!
//! The driver decides what to run and keeps the samples; the caller runs the
//! call on the device and measures it. Nothing is compared here.

use vstd::prelude::*;
use crate::error::HarnessError;
use crate::registry::{plan_linear_forward, spec_plan_linear_forward, LinearCall};
use crate::shape::WorkloadShape;
use crate::stats::{describes, summarize, TimingStats};

verus! {

/// What the caller is to do next in a benchmark run.
#[derive(Clone, Copy, Debug, PartialEq, Eq, Structural)]
pub enum BenchAction {
    /// Run the call once; the elapsed time is handed over but not kept.
    Warmup(LinearCall),
    /// Run the call once and hand over the elapsed time.
    Timed(LinearCall),
    /// Every iteration has been timed.
    Finished,
}

/// A benchmark run as the contracts see it.
pub ghost struct BenchModel {
    pub call: LinearCall,
    /// Whether the warm-up invocation is still to come.
    pub warmup_pending: bool,
    /// How many invocations are to be timed.
    pub iterations: usize,
    /// The elapsed nanoseconds of the timed invocations so far.
    pub samples: Seq<u64>,
}

impl BenchModel {
    /// No more samples are kept than iterations were asked for.
    pub open spec fn wf(self) -> bool {
        self.samples.len() <= self.iterations
    }

    /// The action that is due.
    pub open spec fn next(self) -> BenchAction {
        if self.warmup_pending {
            BenchAction::Warmup(self.call)
        } else if self.samples.len() < self.iterations {
            BenchAction::Timed(self.call)
        } else {
            BenchAction::Finished
        }
    }

    /// The run after the action that was due took `elapsed` nanoseconds: the
    /// warm-up is dropped, a timed invocation is kept, and a finished run
    /// takes no more.
    pub open spec fn recorded(self, elapsed: u64) -> BenchModel {
        if self.warmup_pending {
            BenchModel { warmup_pending: false, ..self }
        } else if self.samples.len() < self.iterations {
            BenchModel { samples: self.samples.push(elapsed), ..self }
        } else {
            self
        }
    }

    /// The run after a series of invocations, oldest first.
    pub open spec fn replay(self, elapsed: Seq<u64>) -> BenchModel
        decreases elapsed.len(),
    {
        if elapsed.len() == 0 {
            self
        } else {
            self.replay(elapsed.drop_last()).recorded(elapsed.last())
        }
    }
}

/// A benchmark run of one kernel on one workload.
#[derive(Debug)]
pub struct BenchmarkDriver {
    call: LinearCall,
    warmup_pending: bool,
    iterations: usize,
    samples: Vec<u64>,
}

impl View for BenchmarkDriver {
    type V = BenchModel;

    closed spec fn view(&self) -> BenchModel {
        BenchModel {
            call: self.call,
            warmup_pending: self.warmup_pending,
            iterations: self.iterations,
            samples: self.samples@,
        }
    }
}

impl BenchmarkDriver {
    #[verifier::type_invariant]
    spec fn inv(self) -> bool {
        self@.wf()
    }

    /// Prepares a run of `iterations` timed invocations, after one warm-up
    /// invocation if `warmup` is set. The call is prepared once, as
    /// `plan_linear_forward` prepares it, and its refusal is the refusal of
    /// the run.
    pub fn new(
        kernel_id: i32,
        out_len: usize,
        inp_len: usize,
        weight_len: usize,
        bias_len: usize,
        shape: &WorkloadShape,
        tuning: usize,
        iterations: usize,
        warmup: bool,
    ) -> (r: Result<BenchmarkDriver, HarnessError>)
        ensures
            ({
                let plan = spec_plan_linear_forward(
                    kernel_id,
                    out_len as int,
                    inp_len as int,
                    weight_len as int,
                    bias_len as int,
                    *shape,
                    tuning,
                );
                &&& r is Ok <==> plan is Ok
                &&& r is Err ==> r->Err_0 == plan->Err_0
                &&& r is Ok ==> r->Ok_0@ == (BenchModel {
                    call: plan->Ok_0,
                    warmup_pending: warmup,
                    iterations,
                    samples: Seq::<u64>::empty(),
                })
            }),
    {
        match plan_linear_forward(kernel_id, out_len, inp_len, weight_len, bias_len, shape, tuning) {
            Err(e) => Err(e),
            Ok(call) => Ok(
                BenchmarkDriver { call, warmup_pending: warmup, iterations, samples: Vec::new() },
            ),
        }
    }

    /// The action that is due.
    pub fn next_action(&self) -> (r: BenchAction)
        ensures
            r == self@.next(),
            self@.wf(),
    {
        proof {
            use_type_invariant(self);
        }
        if self.warmup_pending {
            BenchAction::Warmup(self.call)
        } else if self.samples.len() < self.iterations {
            BenchAction::Timed(self.call)
        } else {
            BenchAction::Finished
        }
    }

    /// Takes the elapsed nanoseconds of the action that was due and returns
    /// the run after it.
    pub fn record(self, elapsed: u64) -> (r: BenchmarkDriver)
        ensures
            r@ == self@.recorded(elapsed),
            r@.wf(),
    {
        proof {
            use_type_invariant(&self);
        }
        let BenchmarkDriver { call, warmup_pending, iterations, samples } = self;
        if warmup_pending {
            BenchmarkDriver { call, warmup_pending: false, iterations, samples }
        } else if samples.len() < iterations {
            let mut samples = samples;
            samples.push(elapsed);
            BenchmarkDriver { call, warmup_pending, iterations, samples }
        } else {
            BenchmarkDriver { call, warmup_pending, iterations, samples }
        }
    }

    /// The samples of the timed invocations so far, oldest first.
    pub fn samples(&self) -> (r: &Vec<u64>)
        ensures
            r@ == self@.samples,
    {
        &self.samples
    }

    /// The statistics of the samples so far; none before the first timed
    /// invocation.
    pub fn summary(&self) -> (r: Option<TimingStats>)
        ensures
            r is None <==> self@.samples.len() == 0,
            r is Some ==> describes(r->Some_0, self@.samples),
    {
        summarize(self.samples.as_slice())
    }
}

/// Recording keeps a run well formed.
pub proof fn lemma_recorded_wf(run: BenchModel, elapsed: u64)
    requires
        run.wf(),
    ensures
        run.recorded(elapsed).wf(),
{
}

/// A fresh run without warm-up that is handed at most as many timings as it
/// has iterations keeps all of them, in order.
pub proof fn lemma_replay_keeps(run: BenchModel, elapsed: Seq<u64>)
    requires
        !run.warmup_pending,
        run.samples.len() == 0,
        elapsed.len() <= run.iterations,
    ensures
        run.replay(elapsed) == (BenchModel { samples: elapsed, ..run }),
    decreases elapsed.len(),
{
    if elapsed.len() > 0 {
        lemma_replay_keeps(run, elapsed.drop_last());
        assert(elapsed.drop_last().push(elapsed.last()) =~= elapsed);
    } else {
        assert(run.samples =~= elapsed);
    }
}

/// A fresh run is finished after its warm-up, if it has one, and exactly as
/// many timed invocations as it has iterations. The warm-up timing is not
/// among the samples; the timed ones are, in order.
pub proof fn lemma_run_completes(run: BenchModel, warmup_elapsed: u64, timed: Seq<u64>)
    requires
        run.samples.len() == 0,
        timed.len() == run.iterations,
    ensures
        ({
            let started = if run.warmup_pending {
                run.recorded(warmup_elapsed)
            } else {
                run
            };
            &&& started.samples == run.samples
            &&& started.replay(timed).samples == timed
            &&& started.replay(timed).next() == BenchAction::Finished
            &&& forall|shorter: Seq<u64>| #[trigger]
                shorter.len() < run.iterations ==> started.replay(shorter).next()
                    == BenchAction::Timed(run.call)
        }),
{
    let started = if run.warmup_pending {
        run.recorded(warmup_elapsed)
    } else {
        run
    };
    lemma_replay_keeps(started, timed);
    assert forall|shorter: Seq<u64>| #[trigger]
        shorter.len() < run.iterations implies started.replay(shorter).next() == BenchAction::Timed(
        run.call,
    ) by {
        lemma_replay_keeps(started, shorter);
    }
}

} // verus!
