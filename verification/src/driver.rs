//! The verification driver: one workload, one reference, and a sweep over
//! candidate kernels, as a state machine that the caller steps.
//!
//! The driver decides; the caller performs. Each step takes the event that
//! the caller observed and returns the action to perform next. The stages run
//! in the order generate, reference, invoke, compare, and the last two repeat
//! for every candidate before the driver reports.

use vstd::prelude::*;
use crate::compare::{agrees, compare, spec_compare, Comparison, MatchPolicy};
use crate::error::{Buffer, HarnessError};
use crate::reference::{
    compute_reference, lemma_reference_values, linear_output, output_in_range, reference_outputs,
};
use crate::registry::{plan_linear_forward, spec_plan_linear_forward, LinearCall, LinearKernel};
use crate::shape::{lemma_split_index, WorkloadShape};

verus! {

/// Where a verification pass stands.
#[derive(Clone, Copy, Debug, PartialEq, Eq, Structural)]
pub enum Stage {
    /// Waiting for the workload buffers.
    GenerateWorkload,
    /// The workload is held; the reference is computed next.
    ComputeReference,
    /// Waiting for the current candidate's output.
    InvokeCandidate,
    /// The candidate's output is held; it is compared next.
    Compare,
    /// Terminal: the findings and any failure can be read.
    Report,
}

/// The finding for one candidate.
#[derive(Clone, Copy, Debug, PartialEq, Eq, Structural)]
pub struct CandidateReport {
    pub kernel_id: i32,
    pub outcome: Comparison,
}

/// What the caller observed since the last step.
#[derive(Debug)]
pub enum Event {
    /// The workload buffers were generated.
    Workload { inp: Vec<i32>, weight: Vec<i32>, bias: Vec<i32> },
    /// Nothing outside happened; the driver may take its next step.
    Proceed,
    /// The device finished and this is the candidate's output.
    KernelOutput(Vec<i128>),
    /// The device reported a failure with this status code.
    KernelFault(i32),
}

/// What the caller is to do next.
#[derive(Clone, Copy, Debug, PartialEq, Eq, Structural)]
pub enum Action {
    /// Generate buffers of these lengths and hand them over as a workload.
    Generate { input_len: usize, weight_len: usize, bias_len: usize },
    /// Step again with `Proceed`.
    Proceed,
    /// Run this call on the device, wait for it, and hand over its output.
    Invoke(LinearCall),
    /// The pass is over.
    Finished,
}

/// An event as the contracts see it.
pub ghost enum EventModel {
    Workload { inp: Seq<i32>, weight: Seq<i32>, bias: Seq<i32> },
    Proceed,
    KernelOutput(Seq<i128>),
    KernelFault(i32),
}

impl View for Event {
    type V = EventModel;

    open spec fn view(&self) -> EventModel {
        match self {
            Event::Workload { inp, weight, bias } => EventModel::Workload {
                inp: inp@,
                weight: weight@,
                bias: bias@,
            },
            Event::Proceed => EventModel::Proceed,
            Event::KernelOutput(out) => EventModel::KernelOutput(out@),
            Event::KernelFault(code) => EventModel::KernelFault(*code),
        }
    }
}

/// The driver as the contracts see it.
pub ghost struct DriverModel {
    pub shape: WorkloadShape,
    pub tuning: usize,
    pub policy: MatchPolicy,
    /// The kernel identifiers to verify, in order.
    pub candidates: Seq<i32>,
    pub stage: Stage,
    pub inp: Seq<i32>,
    pub weight: Seq<i32>,
    pub bias: Seq<i32>,
    pub reference: Seq<i128>,
    /// The output of the candidate that is being compared.
    pub pending: Seq<i128>,
    /// One finding for each candidate that completed its cycle.
    pub reports: Seq<CandidateReport>,
    /// Why the pass was abandoned, if it was.
    pub failure: Option<HarnessError>,
}

impl DriverModel {
    /// The workload is held and fits the shape.
    pub open spec fn holds_workload(self) -> bool {
        self.shape.spec_check_inputs(
            self.inp.len() as int,
            self.weight.len() as int,
            self.bias.len() as int,
        ) is Ok
    }

    /// What holds of a driver between steps.
    pub open spec fn wf(self) -> bool {
        &&& self.shape.wf()
        &&& self.reports.len() <= self.candidates.len()
        &&& forall|i: int|
            0 <= i < self.reports.len() ==> (#[trigger] self.reports[i]).kernel_id
                == self.candidates[i]
        &&& self.stage == Stage::ComputeReference ==> self.holds_workload()
        &&& (self.stage == Stage::InvokeCandidate || self.stage == Stage::Compare) ==> {
            &&& self.holds_workload()
            &&& self.reports.len() < self.candidates.len()
            &&& self.reference == reference_outputs(self.shape, self.inp, self.weight, self.bias)
        }
        &&& self.stage != Stage::Report ==> self.failure is None
    }

    /// The pass abandoned for the reason `e`.
    pub open spec fn abandoned(self, e: HarnessError) -> (DriverModel, Action) {
        (DriverModel { stage: Stage::Report, failure: Some(e), ..self }, Action::Finished)
    }

    /// The call for the next candidate, or the end of the pass where none is
    /// left. A candidate whose call cannot be prepared ends the pass with the
    /// reason, and no call is handed out.
    pub open spec fn next_candidate(self) -> (DriverModel, Action) {
        if self.reports.len() >= self.candidates.len() {
            (DriverModel { stage: Stage::Report, ..self }, Action::Finished)
        } else {
            match spec_plan_linear_forward(
                self.candidates[self.reports.len() as int],
                self.shape.spec_output_len(),
                self.inp.len() as int,
                self.weight.len() as int,
                self.bias.len() as int,
                self.shape,
                self.tuning,
            ) {
                Ok(call) => (
                    DriverModel { stage: Stage::InvokeCandidate, ..self },
                    Action::Invoke(call),
                ),
                Err(e) => self.abandoned(e),
            }
        }
    }

    /// One step of the driver: the next state and the action to perform.
    pub open spec fn step(self, event: EventModel) -> (DriverModel, Action) {
        match self.stage {
            Stage::GenerateWorkload => match event {
                EventModel::Proceed => (
                    self,
                    Action::Generate {
                        input_len: self.shape.spec_input_len() as usize,
                        weight_len: self.shape.spec_weight_len() as usize,
                        bias_len: self.shape.spec_bias_len() as usize,
                    },
                ),
                EventModel::Workload { inp, weight, bias } => match self.shape.spec_check_inputs(
                    inp.len() as int,
                    weight.len() as int,
                    bias.len() as int,
                ) {
                    Ok(_) => (
                        DriverModel { stage: Stage::ComputeReference, inp, weight, bias, ..self },
                        Action::Proceed,
                    ),
                    Err(e) => self.abandoned(e),
                },
                _ => self.abandoned(HarnessError::OutOfOrder),
            },
            Stage::ComputeReference => match event {
                EventModel::Proceed => DriverModel {
                    reference: reference_outputs(self.shape, self.inp, self.weight, self.bias),
                    ..self
                }.next_candidate(),
                _ => self.abandoned(HarnessError::OutOfOrder),
            },
            Stage::InvokeCandidate => match event {
                EventModel::KernelOutput(out) => (
                    DriverModel { stage: Stage::Compare, pending: out, ..self },
                    Action::Proceed,
                ),
                EventModel::KernelFault(code) => self.abandoned(HarnessError::DeviceFault(code)),
                _ => self.abandoned(HarnessError::OutOfOrder),
            },
            Stage::Compare => match event {
                EventModel::Proceed => if self.pending.len() != self.reference.len() {
                    self.abandoned(HarnessError::LengthMismatch(Buffer::Output))
                } else {
                    DriverModel {
                        reports: self.reports.push(
                            CandidateReport {
                                kernel_id: self.candidates[self.reports.len() as int],
                                outcome: spec_compare(self.policy, self.reference, self.pending),
                            },
                        ),
                        ..self
                    }.next_candidate()
                },
                _ => self.abandoned(HarnessError::OutOfOrder),
            },
            Stage::Report => (self, Action::Finished),
        }
    }
}

/// A verification pass over one workload and a list of candidate kernels.
#[derive(Debug)]
pub struct VerificationDriver {
    shape: WorkloadShape,
    tuning: usize,
    policy: MatchPolicy,
    candidates: Vec<i32>,
    stage: Stage,
    inp: Vec<i32>,
    weight: Vec<i32>,
    bias: Vec<i32>,
    reference: Vec<i128>,
    pending: Vec<i128>,
    reports: Vec<CandidateReport>,
    failure: Option<HarnessError>,
}

impl View for VerificationDriver {
    type V = DriverModel;

    closed spec fn view(&self) -> DriverModel {
        DriverModel {
            shape: self.shape,
            tuning: self.tuning,
            policy: self.policy,
            candidates: self.candidates@,
            stage: self.stage,
            inp: self.inp@,
            weight: self.weight@,
            bias: self.bias@,
            reference: self.reference@,
            pending: self.pending@,
            reports: self.reports@,
            failure: self.failure,
        }
    }
}

impl VerificationDriver {
    #[verifier::type_invariant]
    spec fn inv(self) -> bool {
        self@.wf()
    }

    /// A pass that has not begun: it waits for its workload, and holds no
    /// buffer, finding or failure.
    pub fn new(shape: WorkloadShape, candidates: Vec<i32>, tuning: usize, policy: MatchPolicy) -> (driver:
        VerificationDriver)
        ensures
            driver@.wf(),
            driver@ == (DriverModel {
                shape,
                tuning,
                policy,
                candidates: candidates@,
                stage: Stage::GenerateWorkload,
                inp: Seq::<i32>::empty(),
                weight: Seq::<i32>::empty(),
                bias: Seq::<i32>::empty(),
                reference: Seq::<i128>::empty(),
                pending: Seq::<i128>::empty(),
                reports: Seq::<CandidateReport>::empty(),
                failure: None,
            }),
    {
        proof {
            use_type_invariant(&shape);
        }
        VerificationDriver {
            shape,
            tuning,
            policy,
            candidates,
            stage: Stage::GenerateWorkload,
            inp: Vec::new(),
            weight: Vec::new(),
            bias: Vec::new(),
            reference: Vec::new(),
            pending: Vec::new(),
            reports: Vec::new(),
            failure: None,
        }
    }

    /// Where the pass stands.
    pub fn stage(&self) -> (r: Stage)
        ensures
            r == self@.stage,
            self@.wf(),
    {
        proof {
            use_type_invariant(self);
        }
        self.stage
    }

    /// The findings so far, one for each candidate that completed its cycle,
    /// in the order of the candidates.
    pub fn reports(&self) -> (r: &Vec<CandidateReport>)
        ensures
            r@ == self@.reports,
    {
        &self.reports
    }

    /// Why the pass was abandoned, if it was.
    pub fn failure(&self) -> (r: Option<HarnessError>)
        ensures
            r == self@.failure,
    {
        self.failure
    }

    /// The reference output, once it has been computed.
    pub fn reference(&self) -> (r: &Vec<i128>)
        ensures
            r@ == self@.reference,
    {
        &self.reference
    }

    /// Ends the pass with the reason `e`.
    fn abandon(self, e: HarnessError) -> (r: (VerificationDriver, Action))
        ensures
            (r.0@, r.1) == self@.abandoned(e),
    {
        proof {
            use_type_invariant(&self);
        }
        let VerificationDriver {
            shape,
            tuning,
            policy,
            candidates,
            stage: _,
            inp,
            weight,
            bias,
            reference,
            pending,
            reports,
            failure: _,
        } = self;
        (
            VerificationDriver {
                shape,
                tuning,
                policy,
                candidates,
                stage: Stage::Report,
                inp,
                weight,
                bias,
                reference,
                pending,
                reports,
                failure: Some(e),
            },
            Action::Finished,
        )
    }

    /// Prepares the call for the next candidate, or ends the pass.
    fn start_candidate(
        shape: WorkloadShape,
        tuning: usize,
        policy: MatchPolicy,
        candidates: Vec<i32>,
        inp: Vec<i32>,
        weight: Vec<i32>,
        bias: Vec<i32>,
        reference: Vec<i128>,
        pending: Vec<i128>,
        reports: Vec<CandidateReport>,
    ) -> (r: (VerificationDriver, Action))
        requires
            shape.wf(),
            shape.spec_check_inputs(inp@.len() as int, weight@.len() as int, bias@.len() as int)
                is Ok,
            reference@ == reference_outputs(shape, inp@, weight@, bias@),
            reports@.len() <= candidates@.len(),
            forall|i: int|
                0 <= i < reports@.len() ==> (#[trigger] reports@[i]).kernel_id == candidates@[i],
        ensures
            (r.0@, r.1) == (DriverModel {
                shape,
                tuning,
                policy,
                candidates: candidates@,
                stage: Stage::ComputeReference,
                inp: inp@,
                weight: weight@,
                bias: bias@,
                reference: reference@,
                pending: pending@,
                reports: reports@,
                failure: None,
            }).next_candidate(),
    {
        if reports.len() >= candidates.len() {
            return (
                VerificationDriver {
                    shape,
                    tuning,
                    policy,
                    candidates,
                    stage: Stage::Report,
                    inp,
                    weight,
                    bias,
                    reference,
                    pending,
                    reports,
                    failure: None,
                },
                Action::Finished,
            );
        }
        let kernel_id = candidates[reports.len()];
        match plan_linear_forward(
            kernel_id,
            shape.output_len(),
            inp.len(),
            weight.len(),
            bias.len(),
            &shape,
            tuning,
        ) {
            Ok(call) => (
                VerificationDriver {
                    shape,
                    tuning,
                    policy,
                    candidates,
                    stage: Stage::InvokeCandidate,
                    inp,
                    weight,
                    bias,
                    reference,
                    pending,
                    reports,
                    failure: None,
                },
                Action::Invoke(call),
            ),
            Err(e) => (
                VerificationDriver {
                    shape,
                    tuning,
                    policy,
                    candidates,
                    stage: Stage::Report,
                    inp,
                    weight,
                    bias,
                    reference,
                    pending,
                    reports,
                    failure: Some(e),
                },
                Action::Finished,
            ),
        }
    }

    /// Takes one step: consumes the event that the caller observed and
    /// returns the driver in its next state with the action to perform.
    ///
    /// An event that the stage does not take ends the pass with
    /// `OutOfOrder`. A mismatch is a finding and the sweep goes on; a
    /// candidate that is not registered, a buffer that does not fit and a
    /// device fault end the pass.
    pub fn advance(self, event: Event) -> (r: (VerificationDriver, Action))
        ensures
            (r.0@, r.1) == self@.step(event@),
            r.0@.wf(),
    {
        proof {
            use_type_invariant(&self);
            lemma_step_preserves_wf(self@, event@);
        }
        match self.stage {
            Stage::GenerateWorkload => match event {
                Event::Proceed => {
                    let action = Action::Generate {
                        input_len: self.shape.input_len(),
                        weight_len: self.shape.weight_len(),
                        bias_len: self.shape.bias_len(),
                    };
                    (self, action)
                },
                Event::Workload { inp, weight, bias } => {
                    match self.shape.check_inputs(inp.len(), weight.len(), bias.len()) {
                        Err(e) => self.abandon(e),
                        Ok(()) => {
                            let VerificationDriver {
                                shape,
                                tuning,
                                policy,
                                candidates,
                                stage: _,
                                inp: _,
                                weight: _,
                                bias: _,
                                reference,
                                pending,
                                reports,
                                failure,
                            } = self;
                            (
                                VerificationDriver {
                                    shape,
                                    tuning,
                                    policy,
                                    candidates,
                                    stage: Stage::ComputeReference,
                                    inp,
                                    weight,
                                    bias,
                                    reference,
                                    pending,
                                    reports,
                                    failure,
                                },
                                Action::Proceed,
                            )
                        },
                    }
                },
                _ => self.abandon(HarnessError::OutOfOrder),
            },
            Stage::ComputeReference => match event {
                Event::Proceed => {
                    match compute_reference(&self.inp, &self.weight, &self.bias, &self.shape) {
                        Err(e) => self.abandon(e),
                        Ok(fresh) => {
                            let VerificationDriver {
                                shape,
                                tuning,
                                policy,
                                candidates,
                                stage: _,
                                inp,
                                weight,
                                bias,
                                reference: _,
                                pending,
                                reports,
                                failure: _,
                            } = self;
                            Self::start_candidate(
                                shape,
                                tuning,
                                policy,
                                candidates,
                                inp,
                                weight,
                                bias,
                                fresh,
                                pending,
                                reports,
                            )
                        },
                    }
                },
                _ => self.abandon(HarnessError::OutOfOrder),
            },
            Stage::InvokeCandidate => match event {
                Event::KernelOutput(out) => {
                    let VerificationDriver {
                        shape,
                        tuning,
                        policy,
                        candidates,
                        stage: _,
                        inp,
                        weight,
                        bias,
                        reference,
                        pending: _,
                        reports,
                        failure,
                    } = self;
                    (
                        VerificationDriver {
                            shape,
                            tuning,
                            policy,
                            candidates,
                            stage: Stage::Compare,
                            inp,
                            weight,
                            bias,
                            reference,
                            pending: out,
                            reports,
                            failure,
                        },
                        Action::Proceed,
                    )
                },
                Event::KernelFault(code) => self.abandon(HarnessError::DeviceFault(code)),
                _ => self.abandon(HarnessError::OutOfOrder),
            },
            Stage::Compare => match event {
                Event::Proceed => {
                    match compare(self.policy, self.reference.as_slice(), self.pending.as_slice()) {
                        Err(e) => self.abandon(e),
                        Ok(outcome) => {
                            let VerificationDriver {
                                shape,
                                tuning,
                                policy,
                                candidates,
                                stage: _,
                                inp,
                                weight,
                                bias,
                                reference,
                                pending,
                                reports,
                                failure: _,
                            } = self;
                            let mut reports = reports;
                            let kernel_id = candidates[reports.len()];
                            reports.push(CandidateReport { kernel_id, outcome });
                            Self::start_candidate(
                                shape,
                                tuning,
                                policy,
                                candidates,
                                inp,
                                weight,
                                bias,
                                reference,
                                pending,
                                reports,
                            )
                        },
                    }
                },
                _ => self.abandon(HarnessError::OutOfOrder),
            },
            Stage::Report => (self, Action::Finished),
        }
    }
}

/// A step takes a well-formed driver to a well-formed driver.
pub proof fn lemma_step_preserves_wf(driver: DriverModel, event: EventModel)
    requires
        driver.wf(),
    ensures
        driver.step(event).0.wf(),
{
}

/// A call is handed out only for the candidate next in line, and only where
/// that candidate is registered: the call names the variant that the
/// candidate's identifier selects.
pub proof fn lemma_invoke_only_registered(driver: DriverModel, event: EventModel)
    requires
        driver.wf(),
    ensures
        ({
            let (next, action) = driver.step(event);
            action is Invoke ==> {
                &&& next.stage == Stage::InvokeCandidate
                &&& next.reports.len() < next.candidates.len()
                &&& LinearKernel::spec_from_id(next.candidates[next.reports.len() as int]) == Ok::<
                    LinearKernel,
                    HarnessError,
                >(action->Invoke_0.kernel)
            }
        }),
{
}

/// Where the candidate next in line is not registered, the pass ends with
/// `UnsupportedKernel`: no call is handed out, and the workload, the
/// reference and the findings stay as they were.
pub proof fn lemma_unsupported_candidate_ends_pass(driver: DriverModel)
    requires
        driver.reports.len() < driver.candidates.len(),
        LinearKernel::spec_from_id(driver.candidates[driver.reports.len() as int]) is Err,
    ensures
        driver.next_candidate() == driver.abandoned(HarnessError::UnsupportedKernel),
        driver.next_candidate().1 == Action::Finished,
        driver.next_candidate().0.inp == driver.inp,
        driver.next_candidate().0.weight == driver.weight,
        driver.next_candidate().0.bias == driver.bias,
        driver.next_candidate().0.reference == driver.reference,
        driver.next_candidate().0.reports == driver.reports,
{
}

/// A comparison adds one finding for the candidate, pass or mismatch alike,
/// and does not by itself end the pass.
pub proof fn lemma_mismatch_does_not_abort(driver: DriverModel)
    requires
        driver.wf(),
        driver.stage == Stage::Compare,
        driver.pending.len() == driver.reference.len(),
    ensures
        ({
            let (next, action) = driver.step(EventModel::Proceed);
            let finding = CandidateReport {
                kernel_id: driver.candidates[driver.reports.len() as int],
                outcome: spec_compare(driver.policy, driver.reference, driver.pending),
            };
            &&& next.reports == driver.reports.push(finding)
            &&& next.failure is Some ==> next.reports.len() < next.candidates.len()
            &&& next.reports.len() < next.candidates.len() && next.failure is None
                ==> action is Invoke
        }),
{
}

/// What a pass certifies: the finding for a candidate is `Pass` exactly when
/// every one of the `B * T * OC` elements of its output agrees with the value
/// of the reference formula under the policy of the driver.
pub proof fn lemma_pass_certifies_every_element(driver: DriverModel)
    requires
        driver.wf(),
        driver.stage == Stage::Compare,
        driver.pending.len() == driver.reference.len(),
    ensures
        driver.reference.len() == driver.shape.spec_output_len(),
        spec_compare(driver.policy, driver.reference, driver.pending) == Comparison::Pass
            <==> forall|b: int, t: int, o: int|
            output_in_range(driver.shape, b, t, o) ==> {
                let index = #[trigger] driver.shape.spec_output_index(b, t, o);
                &&& driver.reference[index] == linear_output(
                    driver.shape,
                    driver.inp,
                    driver.weight,
                    driver.bias,
                    b,
                    t,
                    o,
                )
                &&& agrees(driver.policy, driver.reference[index], driver.pending[index])
            },
{
    let shape = driver.shape;
    lemma_reference_values(shape, driver.inp, driver.weight, driver.bias);
    let every = forall|b: int, t: int, o: int|
        output_in_range(shape, b, t, o) ==> {
            let index = #[trigger] shape.spec_output_index(b, t, o);
            &&& driver.reference[index] == linear_output(
                shape,
                driver.inp,
                driver.weight,
                driver.bias,
                b,
                t,
                o,
            )
            &&& agrees(driver.policy, driver.reference[index], driver.pending[index])
        };
    if spec_compare(driver.policy, driver.reference, driver.pending) == Comparison::Pass {
        assert forall|b: int, t: int, o: int| output_in_range(shape, b, t, o) implies {
            let index = #[trigger] shape.spec_output_index(b, t, o);
            agrees(driver.policy, driver.reference[index], driver.pending[index])
        } by {
            crate::shape::lemma_row_span(
                shape.batch() as int,
                shape.seq_len() as int,
                shape.out_channels() as int,
                b,
                t,
            );
            let index = shape.spec_output_index(b, t, o);
            assert(0 <= index < driver.reference.len());
            assert(agrees(driver.policy, driver.reference[index], driver.pending[index]));
        }
        assert(every);
    }
    if every {
        assert forall|index: int| 0 <= index < driver.reference.len() implies agrees(
            driver.policy,
            #[trigger] driver.reference[index],
            driver.pending[index],
        ) by {
            lemma_split_index(
                shape.batch() as int,
                shape.seq_len() as int,
                shape.out_channels() as int,
                index,
            );
            let row = index / (shape.out_channels() as int);
            let b = row / (shape.seq_len() as int);
            let t = row % (shape.seq_len() as int);
            let o = index % (shape.out_channels() as int);
            assert(output_in_range(shape, b, t, o));
            assert(shape.spec_output_index(b, t, o) == index);
        }
    }
}

/// One workload serves the whole pass: once it is held, no step changes it,
/// nor the reference once that is computed.
pub proof fn lemma_workload_is_shared(driver: DriverModel, event: EventModel)
    requires
        driver.wf(),
        driver.stage != Stage::GenerateWorkload,
    ensures
        ({
            let next = driver.step(event).0;
            &&& next.inp == driver.inp
            &&& next.weight == driver.weight
            &&& next.bias == driver.bias
            &&& next.candidates == driver.candidates
            &&& driver.stage != Stage::ComputeReference ==> next.reference == driver.reference
        }),
{
}

/// The report stage is terminal: every event leaves the driver as it is.
pub proof fn lemma_report_is_terminal(driver: DriverModel, event: EventModel)
    requires
        driver.stage == Stage::Report,
    ensures
        driver.step(event) == (driver, Action::Finished),
{
}

/// The stages follow one another in order: a step moves the driver to its
/// own stage, to the next one, from comparing back to invoking, or to the
/// report.
pub proof fn lemma_stage_order(driver: DriverModel, event: EventModel)
    requires
        driver.wf(),
    ensures
        ({
            let next = driver.step(event).0.stage;
            match driver.stage {
                Stage::GenerateWorkload => next == Stage::GenerateWorkload || next
                    == Stage::ComputeReference || next == Stage::Report,
                Stage::ComputeReference => next == Stage::InvokeCandidate || next == Stage::Report,
                Stage::InvokeCandidate => next == Stage::Compare || next == Stage::Report,
                Stage::Compare => next == Stage::InvokeCandidate || next == Stage::Report,
                Stage::Report => next == Stage::Report,
            }
        }),
{
}

} // verus!
