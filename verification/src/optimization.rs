//! The fused elementwise unit: compiled once into two kernel variants, then
//! executed with the variant that autotuning found fastest.

use vstd::prelude::*;
use std::sync::Arc;
use crate::context::{
    binding_error, bound_storages, launch_bound, launch_outcome, lemma_binding_faults, Context,
};
use crate::device::{
    asked, ComputeClient, ComputeDevice, DeviceAnswer, DeviceId, DeviceRequest, Exchange,
};
use crate::error::FusionError;
use crate::handle::HandleContainer;
use crate::kernel::{
    default_cube_dim, fixed_cube_dim, generate_id, ElementWiseKernelFactory, KernelView,
    LaunchConfiguration,
};
use crate::sync::share;
use crate::tensor::{TensorDescription, TensorId};
use crate::trace::{signature_of, Trace, TraceView};
use crate::tune::{
    fastest_index, is_fastest, nothing_measured, recorded, trial_recorded, trial_verdict,
    AutotuneCache, AutotuneKey, AutotuneKeyView,
};

verus! {

broadcast use vstd::std_specs::hash::group_hash_axioms;

/// A fused elementwise unit in one of its two phases.
pub struct ElementWise<Phase = ExecutionPhase> {
    pub trace: Trace,
    pub num_operations: usize,
    pub device: DeviceId,
    pub phase: Phase,
}

/// Phase where the kernel should be compiled.
pub struct CompilationPhase;

/// Phase where the kernel should be executed.
pub struct ExecutionPhase {
    /// Kernel set with default cube size.
    pub kernel_factory_1: ElementWiseKernelFactory,
    /// Kernel set with custom cube size.
    pub kernel_factory_2: ElementWiseKernelFactory,
}

/// What outlives a unit when it is put away: the trace and the operation
/// count, never the compiled kernels.
pub struct ElementWiseState {
    trace: Trace,
    num_operations: usize,
}

/// How one execution went.
pub struct Execution {
    /// Index of the kernel variant that produced the result.
    pub variant: usize,
    /// Latency in nanoseconds of each candidate, in declaration order, when
    /// the execution ran a benchmark trial; a candidate that failed has
    /// none. `None` when the decision came from the registry.
    pub trial: Option<Vec<Option<u64>>>,
}

/// Number of candidates in a benchmark trial: both variants, then the default
/// variant once more.
pub const CANDIDATES: usize = 3;

/// The work-group shape of the first variant: the one the compute crate
/// picks when none is asked for.
pub open spec fn default_configuration() -> LaunchConfiguration {
    LaunchConfiguration { x: 16, y: 16, z: 1 }
}

/// The work-group shape of the second variant, fixed here: as many threads
/// as the default, laid out differently.
pub open spec fn alternate_configuration() -> LaunchConfiguration {
    LaunchConfiguration { x: 32, y: 8, z: 1 }
}

/// The two variants of a unit are launched with different work-group
/// shapes.
pub proof fn lemma_configurations_differ()
    ensures
        default_configuration() != alternate_configuration(),
{
}

/// The request that runs a kernel on the storages its inputs own.
pub open spec fn launch_of(
    kernel: KernelView,
    trace: TraceView,
    handles: Map<TensorId, u64>,
) -> DeviceRequest {
    DeviceRequest::Launch { kernel, trace, inputs: bound_storages(trace.inputs, handles) }
}

/// The request that measures a kernel on the storages its inputs own.
pub open spec fn benchmark_of(
    kernel: KernelView,
    trace: TraceView,
    handles: Map<TensorId, u64>,
) -> DeviceRequest {
    DeviceRequest::Benchmark { kernel, trace, inputs: bound_storages(trace.inputs, handles) }
}

/// The latency a measurement came to; a measurement that failed has none.
pub open spec fn latency_of(answer: DeviceAnswer) -> Option<u64> {
    match answer {
        DeviceAnswer::Measured(Ok(elapsed)) => Some(elapsed),
        _ => None,
    }
}

/// An outcome without what an execution reports.
pub open spec fn bare(outcome: Result<Execution, FusionError>) -> Result<(), FusionError> {
    match outcome {
        Ok(_) => Ok(()),
        Err(failure) => Err(failure),
    }
}

/// The shape that stands for a trace in its autotune key: the bound shape of
/// the first output, else of the first input, else no extents at all.
pub open spec fn representative_shape(
    trace: TraceView,
    tensors: Map<u64, TensorDescription>,
) -> Seq<usize> {
    if trace.outputs.len() > 0 {
        tensors[trace.outputs[0].id.value].shape@
    } else if trace.inputs.len() > 0 {
        tensors[trace.inputs[0].id.value].shape@
    } else {
        Seq::empty()
    }
}

/// The tensor whose shape stands for the trace has a bound shape.
pub open spec fn representative_is_bound(
    trace: TraceView,
    tensors: Map<u64, TensorDescription>,
) -> bool {
    if trace.outputs.len() > 0 {
        tensors.contains_key(trace.outputs[0].id.value)
    } else if trace.inputs.len() > 0 {
        tensors.contains_key(trace.inputs[0].id.value)
    } else {
        true
    }
}

/// The record only grows: `after` starts with `before`.
pub open spec fn extends(before: Seq<Exchange>, after: Seq<Exchange>) -> bool {
    before.is_prefix_of(after)
}

/// The handle table keeps every binding and hands out no identity.
pub open spec fn handles_kept(before: HandleContainer, after: HandleContainer) -> bool {
    &&& after.ids() == before.ids()
    &&& before@.submap_of(after@)
}

impl<Phase> ElementWise<Phase> {
    pub fn new(trace: Trace, num_operations: usize, device: DeviceId, phase: Phase) -> (unit: Self)
        ensures
            unit.trace == trace,
            unit.num_operations == num_operations,
            unit.device == device,
            unit.phase == phase,
    {
        ElementWise { trace, num_operations, device, phase }
    }
}

impl ExecutionPhase {
    pub fn new(
        kernel_factory_1: ElementWiseKernelFactory,
        kernel_factory_2: ElementWiseKernelFactory,
    ) -> (phase: Self)
        ensures
            phase.kernel_factory_1 == kernel_factory_1,
            phase.kernel_factory_2 == kernel_factory_2,
    {
        ExecutionPhase { kernel_factory_1, kernel_factory_2 }
    }

    /// The kernel a variant index stands for: 0 and 2 the default variant,
    /// 1 the alternate one.
    pub open spec fn variant(&self, index: usize) -> KernelView {
        if index == 1 {
            self.kernel_factory_2@
        } else {
            self.kernel_factory_1@
        }
    }

    /// Both variants are compiled from the signature of the trace, the first
    /// with the default work-group shape and the second with the alternate
    /// one.
    pub open spec fn compiled_from(&self, trace: TraceView) -> bool {
        &&& self.kernel_factory_1@.signature == signature_of(trace.ops)
        &&& self.kernel_factory_2@.signature == signature_of(trace.ops)
        &&& self.kernel_factory_1@.cube_dim == default_configuration()
        &&& self.kernel_factory_2@.cube_dim == alternate_configuration()
    }
}

impl ElementWiseState {
    pub fn new(trace: Trace, num_operations: usize) -> (state: Self)
        ensures
            state.trace() == trace,
            state.num_operations() == num_operations,
    {
        ElementWiseState { trace, num_operations }
    }

    pub closed spec fn trace(&self) -> Trace {
        self.trace
    }

    pub closed spec fn num_operations(&self) -> usize {
        self.num_operations
    }

    /// Takes the state apart.
    pub fn into_parts(self) -> (parts: (Trace, usize))
        ensures
            parts.0 == self.trace(),
            parts.1 == self.num_operations(),
    {
        (self.trace, self.num_operations)
    }
}

impl ElementWise<CompilationPhase> {
    /// Compiles the unit: builds both kernel variants from the signature of
    /// the trace and moves on to the execution phase. The identities of the
    /// compiled artifacts are drawn at random; everything else is fixed by
    /// the trace.
    pub fn compile(self) -> (unit: ElementWise<ExecutionPhase>)
        ensures
            unit.trace == self.trace,
            unit.num_operations == self.num_operations,
            unit.device == self.device,
            unit.phase.compiled_from(self.trace@),
    {
        let info = Arc::new(self.trace.compiling());

        let kernel_factory_1 = ElementWiseKernelFactory::new(
            generate_id(),
            share(&info),
            default_cube_dim(),
        );
        let kernel_factory_2 = ElementWiseKernelFactory::new(
            generate_id(),
            info,
            fixed_cube_dim(32, 8, 1),
        );

        ElementWise {
            trace: self.trace,
            device: self.device,
            phase: ExecutionPhase::new(kernel_factory_1, kernel_factory_2),
            num_operations: self.num_operations,
        }
    }
}

impl ElementWise<ExecutionPhase> {
    /// The autotune key of this unit under the shapes bound in a context.
    pub open spec fn key(&self, tensors: Map<u64, TensorDescription>) -> AutotuneKeyView {
        AutotuneKeyView {
            num_operations: self.num_operations,
            shape: representative_shape(self.trace@, tensors),
        }
    }

    /// What running variant `index` does. With a binding fault nothing is
    /// asked of the device and the fault is returned. Otherwise exactly one
    /// launch of that variant is asked, on the storages the inputs own, and
    /// the device's answer decides the rest: see `launch_outcome` and
    /// `launch_bound`.
    pub open spec fn kernel_ran(
        &self,
        index: usize,
        handles_before: HandleContainer,
        handles_after: HandleContainer,
        record_before: Seq<Exchange>,
        record_after: Seq<Exchange>,
        outcome: Result<(), FusionError>,
    ) -> bool {
        let trace = self.trace@;
        match binding_error(trace.inputs, trace.outputs, handles_before@, handles_before.ids()) {
            Some(fault) => {
                &&& outcome == Err::<(), FusionError>(fault)
                &&& record_after == record_before
                &&& handles_after == handles_before
            },
            None => {
                &&& asked(
                    record_before,
                    record_after,
                    launch_of(self.phase.variant(index), trace, handles_before@),
                )
                &&& record_after.last().answer is Launched
                &&& outcome == launch_outcome(
                    trace.outputs,
                    record_after.last().answer->Launched_0,
                )
                &&& launch_bound(
                    trace.outputs,
                    record_after.last().answer->Launched_0,
                    handles_before,
                    handles_after,
                )
            },
        }
    }

    /// The three measurements of a benchmark trial: the default variant, the
    /// alternate variant, and the default variant once more.
    pub open spec fn trial_requests(&self, handles: Map<TensorId, u64>) -> Seq<DeviceRequest> {
        seq![
            benchmark_of(self.phase.kernel_factory_1@, self.trace@, handles),
            benchmark_of(self.phase.kernel_factory_2@, self.trace@, handles),
            benchmark_of(self.phase.kernel_factory_1@, self.trace@, handles),
        ]
    }

    /// The record grew by exactly the three measurements of a trial.
    pub open spec fn trial_measured(
        &self,
        handles: Map<TensorId, u64>,
        record_before: Seq<Exchange>,
        measured: Seq<Exchange>,
    ) -> bool {
        let n = record_before.len() as int;
        let requests = self.trial_requests(handles);
        &&& measured.len() == n + 3
        &&& record_before.is_prefix_of(measured)
        &&& measured[n].request == requests[0]
        &&& measured[n + 1].request == requests[1]
        &&& measured[n + 2].request == requests[2]
        &&& measured[n].answer is Measured
        &&& measured[n + 1].answer is Measured
        &&& measured[n + 2].answer is Measured
    }

    /// What a benchmark trial for `key` does. With a binding fault nothing
    /// happens. Otherwise the three candidates are measured, and the
    /// latencies decide the rest: the registry becomes what `trial_recorded`
    /// says; a trial without verdict ends there with the failure of
    /// `trial_verdict`; a trial with a verdict runs the variant the verdict
    /// names and reports the latencies.
    pub open spec fn autotune_ran(
        &self,
        key: AutotuneKeyView,
        handles_before: HandleContainer,
        handles_after: HandleContainer,
        record_before: Seq<Exchange>,
        record_after: Seq<Exchange>,
        decisions_before: Map<(DeviceId, AutotuneKeyView), usize>,
        decisions_after: Map<(DeviceId, AutotuneKeyView), usize>,
        outcome: Result<Execution, FusionError>,
    ) -> bool {
        let trace = self.trace@;
        match binding_error(trace.inputs, trace.outputs, handles_before@, handles_before.ids()) {
            Some(fault) => {
                &&& outcome is Err
                &&& outcome->Err_0 == fault
                &&& record_after == record_before
                &&& handles_after == handles_before
                &&& decisions_after == decisions_before
            },
            None => {
                let n = record_before.len() as int;
                let measured = record_after.subrange(0, n + 3);
                let latencies = seq![
                    latency_of(record_after[n].answer),
                    latency_of(record_after[n + 1].answer),
                    latency_of(record_after[n + 2].answer),
                ];
                &&& record_after.len() >= n + 3
                &&& self.trial_measured(handles_before@, record_before, measured)
                &&& decisions_after == trial_recorded(
                    decisions_before,
                    self.device,
                    key,
                    latencies,
                )
                &&& match trial_verdict(decisions_before, self.device, key, latencies) {
                    Err(failure) => {
                        &&& outcome is Err
                        &&& outcome->Err_0 == failure
                        &&& record_after == measured
                        &&& handles_after == handles_before
                    },
                    Ok(kept) => {
                        &&& self.kernel_ran(
                            kept,
                            handles_before,
                            handles_after,
                            measured,
                            record_after,
                            bare(outcome),
                        )
                        &&& outcome is Ok ==> outcome->Ok_0.variant == kept
                            && outcome->Ok_0.trial is Some && outcome->Ok_0.trial->Some_0@
                            == latencies
                    },
                }
            },
        }
    }

    /// What executing the unit under `key` does. With a decision in the
    /// registry for this device and key, the registry is left alone and the
    /// variant it names is run, unless the index is outside the candidates:
    /// then nothing is asked of the device. Without a decision, a benchmark
    /// trial is run.
    pub open spec fn executed(
        &self,
        key: AutotuneKeyView,
        handles_before: HandleContainer,
        handles_after: HandleContainer,
        record_before: Seq<Exchange>,
        record_after: Seq<Exchange>,
        decisions_before: Map<(DeviceId, AutotuneKeyView), usize>,
        decisions_after: Map<(DeviceId, AutotuneKeyView), usize>,
        outcome: Result<Execution, FusionError>,
    ) -> bool {
        if decisions_before.contains_key((self.device, key)) {
            let index = decisions_before[(self.device, key)];
            &&& decisions_after == decisions_before
            &&& if index < CANDIDATES {
                &&& self.kernel_ran(
                    index,
                    handles_before,
                    handles_after,
                    record_before,
                    record_after,
                    bare(outcome),
                )
                &&& outcome is Ok ==> outcome->Ok_0.variant == index && outcome->Ok_0.trial
                    is None
            } else {
                &&& outcome is Err
                &&& outcome->Err_0 == FusionError::CorruptCache(index)
                &&& record_after == record_before
                &&& handles_after == handles_before
            }
        } else {
            self.autotune_ran(
                key,
                handles_before,
                handles_after,
                record_before,
                record_after,
                decisions_before,
                decisions_after,
                outcome,
            )
        }
    }

    /// Whatever an execution does, it unbinds nothing, takes no exchange
    /// back, and changes the registry by at most one offer for its own
    /// device and key: every other decision is as it was, and a decision
    /// already held is kept.
    pub proof fn lemma_execution_only_adds(
        &self,
        key: AutotuneKeyView,
        handles_before: HandleContainer,
        handles_after: HandleContainer,
        record_before: Seq<Exchange>,
        record_after: Seq<Exchange>,
        decisions_before: Map<(DeviceId, AutotuneKeyView), usize>,
        decisions_after: Map<(DeviceId, AutotuneKeyView), usize>,
        outcome: Result<Execution, FusionError>,
    )
        requires
            self.executed(
                key,
                handles_before,
                handles_after,
                record_before,
                record_after,
                decisions_before,
                decisions_after,
                outcome,
            ),
        ensures
            handles_kept(handles_before, handles_after),
            extends(record_before, record_after),
            decisions_before.submap_of(decisions_after),
            decisions_after == decisions_before || exists|index: usize|
                index < CANDIDATES && decisions_after == #[trigger] recorded(
                    decisions_before,
                    self.device,
                    key,
                    index,
                ),
            outcome is Ok ==> record_after.len() == record_before.len() + (if outcome->Ok_0.trial
                is Some {
                4nat
            } else {
                1nat
            }),
    {
        let n = record_before.len() as int;
        if decisions_before.contains_key((self.device, key)) {
        } else if binding_error(
            self.trace@.inputs,
            self.trace@.outputs,
            handles_before@,
            handles_before.ids(),
        ) is None {
            let measured = record_after.subrange(0, n + 3);
            let latencies = seq![
                latency_of(record_after[n].answer),
                latency_of(record_after[n + 1].answer),
                latency_of(record_after[n + 2].answer),
            ];
            assert(record_before.is_prefix_of(record_after)) by {
                assert forall|i: int| 0 <= i < n implies record_before[i] == record_after[i] by {
                    assert(measured[i] == record_after[i]);
                }
            }
            if trial_verdict(decisions_before, self.device, key, latencies) is Ok {
                let winner = fastest_index(latencies);
                assert(!nothing_measured(latencies));
                crate::tune::lemma_some_is_fastest(latencies);
                assert(is_fastest(latencies, winner));
                assert(decisions_after == recorded(
                    decisions_before,
                    self.device,
                    key,
                    winner as usize,
                ));
            }
        }
    }

    /// An execution that succeeds leaves a decision for its device and key in
    /// the registry: the index of the variant it ran, which names a
    /// candidate. When it ran a trial, that variant is the fastest of the
    /// latencies it reports, unless the registry already held a decision.
    pub proof fn lemma_success_leaves_a_decision(
        &self,
        key: AutotuneKeyView,
        handles_before: HandleContainer,
        handles_after: HandleContainer,
        record_before: Seq<Exchange>,
        record_after: Seq<Exchange>,
        decisions_before: Map<(DeviceId, AutotuneKeyView), usize>,
        decisions_after: Map<(DeviceId, AutotuneKeyView), usize>,
        execution: Execution,
    )
        requires
            self.executed(
                key,
                handles_before,
                handles_after,
                record_before,
                record_after,
                decisions_before,
                decisions_after,
                Ok(execution),
            ),
        ensures
            decisions_after.contains_key((self.device, key)),
            decisions_after[(self.device, key)] == execution.variant,
            execution.variant < CANDIDATES,
            execution.trial is Some <==> !decisions_before.contains_key((self.device, key)),
            execution.trial matches Some(latencies) ==> is_fastest(
                latencies@,
                execution.variant as int,
            ),
    {
        if !decisions_before.contains_key((self.device, key)) {
            let n = record_before.len() as int;
            let latencies = seq![
                latency_of(record_after[n].answer),
                latency_of(record_after[n + 1].answer),
                latency_of(record_after[n + 2].answer),
            ];
            crate::tune::lemma_some_is_fastest(latencies);
            assert(execution.trial->Some_0@ == latencies);
        }
    }

    /// Deterministic caching: once an execution that found no decision has
    /// run its trial and succeeded, the variant it ran is the fastest of the
    /// trial and is the decision in the registry; an execution under the
    /// same key that starts from that registry, on whatever handles, runs
    /// that same variant, measures nothing and leaves the registry as it is.
    pub proof fn lemma_later_executions_reuse_the_decision(
        &self,
        key: AutotuneKeyView,
        first_handles: (HandleContainer, HandleContainer),
        first_record: (Seq<Exchange>, Seq<Exchange>),
        later_handles: (HandleContainer, HandleContainer),
        later_record: (Seq<Exchange>, Seq<Exchange>),
        decisions_at_start: Map<(DeviceId, AutotuneKeyView), usize>,
        decisions_after_first: Map<(DeviceId, AutotuneKeyView), usize>,
        decisions_after_later: Map<(DeviceId, AutotuneKeyView), usize>,
        first: Execution,
        later: Result<Execution, FusionError>,
    )
        requires
            !decisions_at_start.contains_key((self.device, key)),
            self.executed(
                key,
                first_handles.0,
                first_handles.1,
                first_record.0,
                first_record.1,
                decisions_at_start,
                decisions_after_first,
                Ok(first),
            ),
            self.executed(
                key,
                later_handles.0,
                later_handles.1,
                later_record.0,
                later_record.1,
                decisions_after_first,
                decisions_after_later,
                later,
            ),
        ensures
            first.trial matches Some(latencies) && is_fastest(latencies@, first.variant as int),
            decisions_after_first[(self.device, key)] == first.variant,
            decisions_after_later == decisions_after_first,
            later matches Ok(execution) ==> execution.variant == first.variant
                && execution.trial is None,
            later matches Err(failure) ==> !(failure is BenchmarkFailed) && !(failure
                is CorruptCache),
            later_record.1.len() <= later_record.0.len() + 1,
    {
        lemma_binding_faults(
            self.trace@.inputs,
            self.trace@.outputs,
            later_handles.0@,
            later_handles.0.ids(),
        );
        let n = first_record.0.len() as int;
        let latencies = seq![
            latency_of(first_record.1[n].answer),
            latency_of(first_record.1[n + 1].answer),
            latency_of(first_record.1[n + 2].answer),
        ];
        crate::tune::lemma_some_is_fastest(latencies);
        assert(first.trial->Some_0@ == latencies);
    }

    /// Executes the unit: with a decision in the registry for this device
    /// and workload, runs the variant it names; without one, runs a
    /// benchmark trial, stores its winner and runs the winner.
    pub fn execute<D: ComputeDevice>(
        &mut self,
        context: &mut Context,
        client: &mut ComputeClient<D>,
        tuner: &mut AutotuneCache,
    ) -> (outcome: Result<Execution, FusionError>)
        requires
            representative_is_bound(old(self).trace@, old(context).tensors@),
        ensures
            *final(self) == *old(self),
            final(context).tensors == old(context).tensors,
            old(self).executed(
                old(self).key(old(context).tensors@),
                old(context).handles,
                final(context).handles,
                old(client).exchanges(),
                final(client).exchanges(),
                old(tuner)@,
                final(tuner)@,
                outcome,
            ),
    {
        let key = AutotuneKey::new(self.num_operations, self.autotune_shape(context));

        match tuner.lookup(&self.device, &key) {
            Some(index) => {
                if index >= CANDIDATES {
                    return Err(FusionError::CorruptCache(index));
                }
                match self.run_kernel(context, client, index) {
                    Ok(()) => Ok(Execution { variant: index, trial: None }),
                    Err(failure) => Err(failure),
                }
            },
            None => self.run_autotune(context, client, tuner, key),
        }
    }

    /// Runs the kernel variant a decision names, binding its results in the
    /// context.
    pub fn run_kernel<D: ComputeDevice>(
        &mut self,
        context: &mut Context,
        client: &mut ComputeClient<D>,
        fastest_set_index: usize,
    ) -> (outcome: Result<(), FusionError>)
        requires
            fastest_set_index < CANDIDATES,
        ensures
            *final(self) == *old(self),
            final(context).tensors == old(context).tensors,
            old(self).kernel_ran(
                fastest_set_index,
                old(context).handles,
                final(context).handles,
                old(client).exchanges(),
                final(client).exchanges(),
                outcome,
            ),
    {
        let kernel_set = match fastest_set_index {
            0 => &self.phase.kernel_factory_1,
            1 => &self.phase.kernel_factory_2,
            _ => &self.phase.kernel_factory_1,
        };
        let inputs = match context.handles.bind(self.trace.inputs(), self.trace.outputs()) {
            Ok(storages) => storages,
            Err(fault) => {
                return Err(fault);
            },
        };
        let answer = client.launch(kernel_set, &self.trace, &inputs);
        context.handles.conclude_launch(self.trace.outputs(), answer)
    }

    /// Measures every candidate on the bound inputs, offers the fastest to
    /// the registry and runs the variant the registry then holds.
    pub fn run_autotune<D: ComputeDevice>(
        &mut self,
        context: &mut Context,
        client: &mut ComputeClient<D>,
        tuner: &mut AutotuneCache,
        key: AutotuneKey,
    ) -> (outcome: Result<Execution, FusionError>)
        ensures
            *final(self) == *old(self),
            final(context).tensors == old(context).tensors,
            old(self).autotune_ran(
                key@,
                old(context).handles,
                final(context).handles,
                old(client).exchanges(),
                final(client).exchanges(),
                old(tuner)@,
                final(tuner)@,
                outcome,
            ),
    {
        let inputs = match context.handles.bind(self.trace.inputs(), self.trace.outputs()) {
            Ok(storages) => storages,
            Err(fault) => {
                return Err(fault);
            },
        };
        let ghost n = client.exchanges().len() as int;

        let kernel_1 = measure(client, &self.phase.kernel_factory_1, &self.trace, &inputs);
        let ghost after_1 = client.exchanges();
        let kernel_2 = measure(client, &self.phase.kernel_factory_2, &self.trace, &inputs);
        let ghost after_2 = client.exchanges();
        let kernel_default = measure(client, &self.phase.kernel_factory_1, &self.trace, &inputs);
        let ghost measured = client.exchanges();

        let mut latencies: Vec<Option<u64>> = Vec::new();
        latencies.push(kernel_1);
        latencies.push(kernel_2);
        latencies.push(kernel_default);
        proof {
            assert(measured[n + 1] == measured.drop_last()[n + 1]);
            assert(measured[n] == measured.drop_last()[n]);
            assert(after_2[n] == after_2.drop_last()[n]);
            assert(old(client).exchanges().is_prefix_of(measured)) by {
                assert forall|i: int| 0 <= i < n implies old(client).exchanges()[i]
                    == measured[i] by {
                    assert(measured[i] == measured.drop_last()[i]);
                    assert(after_2[i] == after_2.drop_last()[i]);
                    assert(after_1[i] == after_1.drop_last()[i]);
                }
            }
            assert(latencies@ =~= seq![
                latency_of(measured[n].answer),
                latency_of(measured[n + 1].answer),
                latency_of(measured[n + 2].answer),
            ]);
            assert(old(self).trial_measured(
                old(context).handles@,
                old(client).exchanges(),
                measured,
            ));
        }

        let kept = match tuner.conclude_trial(self.device, key, &latencies) {
            Ok(kept) => kept,
            Err(failure) => {
                assert(measured.subrange(0, n + 3) =~= measured);
                return Err(failure);
            },
        };
        let outcome = match self.run_kernel(context, client, kept) {
            Ok(()) => Ok(Execution { variant: kept, trial: Some(latencies) }),
            Err(failure) => Err(failure),
        };
        proof {
            let after = client.exchanges();
            assert(after.subrange(0, n + 3) =~= measured);
            assert(after[n] == measured[n]);
            assert(after[n + 1] == measured[n + 1]);
            assert(after[n + 2] == measured[n + 2]);
        }
        outcome
    }

    pub fn len(&self) -> (count: usize)
        ensures
            count == self.num_operations,
    {
        self.num_operations
    }

    /// The first output is chosen when possible, otherwise the first input is chosen.
    pub fn autotune_shape<'a>(&self, context: &'a Context) -> (shape: &'a [usize])
        requires
            representative_is_bound(self.trace@, context.tensors@),
        ensures
            shape@ == representative_shape(self.trace@, context.tensors@),
            self.trace@.outputs.len() == 0 && self.trace@.inputs.len() == 0 ==> shape@.len() == 0,
    {
        let outputs = self.trace.outputs();
        if outputs.len() > 0 {
            let tensor = &outputs[0];
            assert(self.trace@.outputs[0] == tensor@);
            let tensor = context.tensors.get(&tensor.id.value).unwrap();
            return tensor.shape.as_slice();
        }
        let inputs = self.trace.inputs();
        if inputs.len() > 0 {
            let tensor = &inputs[0];
            assert(self.trace@.inputs[0] == tensor@);
            let tensor = context.tensors.get(&tensor.id.value).unwrap();
            return tensor.shape.as_slice();
        }
        &[]
    }

    /// Rebuilds a unit from what was put away. The compiled kernels are not
    /// part of the state, so the unit is compiled again.
    pub fn from_state(device: &DeviceId, state: ElementWiseState) -> (unit: Self)
        ensures
            unit.trace == state.trace(),
            unit.num_operations == state.num_operations(),
            unit.device == *device,
            unit.phase.compiled_from(state.trace()@),
    {
        let (trace, num_operations) = state.into_parts();
        ElementWise { trace, device: *device, phase: CompilationPhase, num_operations }.compile()
    }

    /// What is put away of the unit: the trace and the operation count.
    pub fn to_state(&self) -> (state: ElementWiseState)
        ensures
            state.trace()@ == self.trace@,
            state.num_operations() == self.num_operations,
    {
        ElementWiseState { trace: self.trace.clone(), num_operations: self.num_operations }
    }
}

/// One measurement of a benchmark trial; a candidate the device fails on has
/// no latency.
fn measure<D: ComputeDevice>(
    client: &mut ComputeClient<D>,
    kernel: &ElementWiseKernelFactory,
    trace: &Trace,
    inputs: &Vec<u64>,
) -> (latency: Option<u64>)
    ensures
        asked(
            old(client).exchanges(),
            final(client).exchanges(),
            DeviceRequest::Benchmark { kernel: kernel@, trace: trace@, inputs: inputs@ },
        ),
        final(client).exchanges().last().answer is Measured,
        latency == latency_of(final(client).exchanges().last().answer),
{
    match client.benchmark(kernel, trace, inputs) {
        Ok(elapsed) => Some(elapsed),
        Err(_) => None,
    }
}

} // verus!
