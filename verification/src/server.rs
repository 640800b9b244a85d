//! The dispatch server of one device: it owns the handle table, the stream
//! and the compiled kernels, and carries out registration, draining, reads
//! and transfers.

use vstd::prelude::*;
use std::collections::HashMap;
use std::sync::Arc;
use spin::mutex::Mutex;
use crate::context::{binding_error, bound_storages, launch_bound, launch_outcome, Context};
use crate::device::{
    asked, ComputeClient, ComputeDevice, DeviceAnswer, DeviceError, DeviceId, DeviceRequest,
    ElementKind, Exchange, Handle,
};
use crate::error::FusionError;
use crate::handle::HandleContainer;
use crate::optimization::{
    extends, handles_kept, CompilationPhase, ElementWise, Execution, ExecutionPhase,
};
use crate::stream::{
    clone_range, contiguous, lemma_segments_cover, operation_views, segments_from,
    OperationDescription, OperationView, Segment, Stream,
};
use crate::sync::{guarded, lock, new_mutex, share};
use crate::tensor::{tensor_views, TensorDescription, TensorId, TensorView};
use crate::trace::{
    boundary_inputs, boundary_outputs, has_id, signature_of, OperationSignature, Trace,
    TraceView,
};
use crate::tune::{AutotuneCache, AutotuneKeyView};

verus! {

broadcast use vstd::std_specs::hash::group_hash_axioms;

/// The autotune registry as servers share it: one registry, reached from
/// every server of every device, guarded by a lock of its own.
pub struct AutotuneRegistry {
    decisions: Arc<Mutex<AutotuneCache>>,
}

impl AutotuneRegistry {
    /// A registry with no decision in it.
    pub fn new() -> (registry: Self) {
        AutotuneRegistry { decisions: Arc::new(new_mutex(AutotuneCache::new())) }
    }

    /// Another reference to the same registry.
    pub fn share(&self) -> (other: Self)
        ensures
            other == *self,
    {
        AutotuneRegistry { decisions: share(&self.decisions) }
    }

    /// The decision stored for the device and key, if any, at the moment of
    /// the call.
    pub fn autotune_result(&self, device: &DeviceId, key: &crate::tune::AutotuneKey) -> (decision:
        Option<usize>) {
        let mut guard = lock(&*self.decisions);
        let cache = guarded(&mut guard);
        cache.lookup(device, key)
    }
}

/// The variants compiled for one structural signature.
struct CompiledEntry {
    signature: Vec<OperationSignature>,
    phase: ExecutionPhase,
}

/// The kernels compiled so far, one pair of variants per structural
/// signature.
pub struct CompiledKernels {
    entries: Vec<CompiledEntry>,
}

/// Whether two signatures are the same.
pub fn same_signature(a: &Vec<OperationSignature>, b: &Vec<OperationSignature>) -> (equal: bool)
    ensures
        equal == (a@ == b@),
{
    if a.len() != b.len() {
        return false;
    }
    let mut i: usize = 0;
    while i < a.len()
        invariant
            a.len() == b.len(),
            i <= a.len(),
            forall|j: int| 0 <= j < i ==> a@[j] == b@[j],
        decreases a.len() - i,
    {
        if a[i].kind != b[i].kind || a[i].arity != b[i].arity {
            return false;
        }
        i += 1;
    }
    assert(a@ =~= b@);
    true
}

impl CompiledKernels {
    /// The signatures compiled so far, in the order they were compiled.
    pub closed spec fn signatures(&self) -> Seq<Seq<OperationSignature>> {
        self.entries@.map_values(|entry: CompiledEntry| entry.signature@)
    }

    /// No signature was compiled twice, and the variants kept for a
    /// signature are compiled from it.
    pub closed spec fn well_formed(&self) -> bool {
        &&& self.signatures().no_duplicates()
        &&& forall|i: int|
            0 <= i < self.entries@.len() ==> {
                &&& (#[trigger] self.entries@[i]).phase.kernel_factory_1@.signature
                    == self.entries@[i].signature@
                &&& self.entries@[i].phase.kernel_factory_2@.signature
                    == self.entries@[i].signature@
                &&& self.entries@[i].phase.kernel_factory_1@.cube_dim
                    == crate::optimization::default_configuration()
                &&& self.entries@[i].phase.kernel_factory_2@.cube_dim
                    == crate::optimization::alternate_configuration()
            }
    }

    /// Compile-once: among the kernels kept, no structural signature occurs
    /// twice, so `compilations` counts each signature seen once, however
    /// many runs shared it.
    pub proof fn lemma_compiled_once(&self)
        requires
            self.well_formed(),
        ensures
            self.signatures().no_duplicates(),
    {
    }

    pub fn new() -> (compiled: Self)
        ensures
            compiled.signatures() == Seq::<Seq<OperationSignature>>::empty(),
            compiled.well_formed(),
    {
        let compiled = CompiledKernels { entries: Vec::new() };
        assert(compiled.signatures() =~= Seq::<Seq<OperationSignature>>::empty());
        compiled
    }

    /// How many times a kernel was compiled.
    pub fn compilations(&self) -> (count: usize)
        ensures
            count == self.signatures().len(),
    {
        self.entries.len()
    }

    /// The unit for a trace, ready to execute. A signature seen before
    /// reuses the variants compiled for it; a new signature is compiled,
    /// once, and kept.
    pub fn obtain(&mut self, trace: Trace, num_operations: usize, device: DeviceId) -> (unit:
        ElementWise<ExecutionPhase>)
        ensures
            unit.trace == trace,
            unit.num_operations == num_operations,
            unit.device == device,
            old(self).well_formed() ==> final(self).well_formed() && unit.phase.compiled_from(
                trace@,
            ),
            old(self).signatures().contains(signature_of(trace@.ops)) ==> final(self).signatures()
                == old(self).signatures(),
            !old(self).signatures().contains(signature_of(trace@.ops))
                ==> final(self).signatures() == old(self).signatures().push(
                signature_of(trace@.ops),
            ) && unit.phase.compiled_from(trace@),
    {
        let signature = trace.signature();
        let mut i: usize = 0;
        while i < self.entries.len()
            invariant
                i <= self.entries@.len(),
                *self == *old(self),
                signature@ == signature_of(trace@.ops),
                forall|j: int| 0 <= j < i ==> self.signatures()[j] != signature@,
            decreases self.entries@.len() - i,
        {
            let entry = &self.entries[i];
            assert(self.signatures()[i as int] == entry.signature@);
            if same_signature(&entry.signature, &signature) {
                let phase = ExecutionPhase::new(
                    entry.phase.kernel_factory_1.duplicate(),
                    entry.phase.kernel_factory_2.duplicate(),
                );
                assert(self.signatures().contains(signature@));
                return ElementWise::new(trace, num_operations, device, phase);
            }
            i += 1;
        }
        let unit = ElementWise::new(trace, num_operations, device, CompilationPhase).compile();
        let phase = ExecutionPhase::new(
            unit.phase.kernel_factory_1.duplicate(),
            unit.phase.kernel_factory_2.duplicate(),
        );
        let entry = CompiledEntry { signature, phase };
        self.entries.push(entry);
        proof {
            assert(self.signatures() =~= old(self).signatures().push(signature@));
            if old(self).well_formed() {
                assert forall|a: int, b: int|
                    0 <= a < self.signatures().len() && 0 <= b < self.signatures().len() && a
                        != b implies self.signatures()[a] != self.signatures()[b] by {
                    if a < old(self).signatures().len() {
                        assert(self.signatures()[a] == old(self).signatures()[a]);
                    }
                    if b < old(self).signatures().len() {
                        assert(self.signatures()[b] == old(self).signatures()[b]);
                    }
                }
                assert forall|k: int| 0 <= k < self.entries@.len() implies {
                    &&& (#[trigger] self.entries@[k]).phase.kernel_factory_1@.signature
                        == self.entries@[k].signature@
                    &&& self.entries@[k].phase.kernel_factory_2@.signature
                        == self.entries@[k].signature@
                    &&& self.entries@[k].phase.kernel_factory_1@.cube_dim
                        == crate::optimization::default_configuration()
                    &&& self.entries@[k].phase.kernel_factory_2@.cube_dim
                        == crate::optimization::alternate_configuration()
                } by {
                    if k < old(self).entries@.len() {
                        assert(self.entries@[k] == old(self).entries@[k]);
                    }
                }
            }
        }
        unit
    }
}

/// The trace that recording a run yields.
pub open spec fn recorded_trace(ops: Seq<OperationView>) -> TraceView {
    TraceView { ops, inputs: boundary_inputs(ops), outputs: boundary_outputs(ops) }
}

/// The shape that stands for a trace as its own descriptions give it: that
/// of the first output, else of the first input, else no extents.
pub open spec fn trace_shape(trace: TraceView) -> Seq<usize> {
    if trace.outputs.len() > 0 {
        trace.outputs[0].shape
    } else if trace.inputs.len() > 0 {
        trace.inputs[0].shape
    } else {
        Seq::empty()
    }
}

/// The answer to a single operation, as the answer to a launch with one
/// result.
pub open spec fn single(answer: Result<u64, DeviceError>) -> Result<Seq<u64>, DeviceError> {
    match answer {
        Ok(storage) => Ok(seq![storage]),
        Err(failure) => Err(failure),
    }
}

/// What running one operation by itself does. With a binding fault nothing
/// is asked of the device and the fault is returned. Otherwise the operation
/// is asked once, on the storages its operands own, and the device's answer
/// decides the rest: its failure is passed on and binds nothing; its storage
/// is bound to the result.
pub open spec fn operation_ran(
    op: OperationView,
    handles_before: HandleContainer,
    handles_after: HandleContainer,
    record_before: Seq<Exchange>,
    record_after: Seq<Exchange>,
    outcome: Result<(), FusionError>,
) -> bool {
    match binding_error(op.inputs, seq![op.out], handles_before@, handles_before.ids()) {
        Some(fault) => {
            &&& outcome == Err::<(), FusionError>(fault)
            &&& record_after == record_before
            &&& handles_after == handles_before
        },
        None => {
            &&& asked(
                record_before,
                record_after,
                DeviceRequest::Operation {
                    op,
                    inputs: bound_storages(op.inputs, handles_before@),
                },
            )
            &&& record_after.last().answer is Ran
            &&& outcome == launch_outcome(seq![op.out], single(record_after.last().answer->Ran_0))
            &&& launch_bound(
                seq![op.out],
                single(record_after.last().answer->Ran_0),
                handles_before,
                handles_after,
            )
        },
    }
}

/// What running a fused run does, in terms of the unit that ran: the unit
/// holds the recorded trace of the run, counts its operations, belongs to
/// the device, and was executed under the key of its own boundary.
pub open spec fn fused_ran(
    unit: ElementWise<ExecutionPhase>,
    run: Seq<OperationView>,
    device: DeviceId,
    handles_before: HandleContainer,
    handles_after: HandleContainer,
    record_before: Seq<Exchange>,
    record_after: Seq<Exchange>,
    decisions_before: Map<(DeviceId, AutotuneKeyView), usize>,
    decisions_after: Map<(DeviceId, AutotuneKeyView), usize>,
    outcome: Result<Execution, FusionError>,
) -> bool {
    &&& unit.trace@ == recorded_trace(run)
    &&& unit.num_operations == run.len()
    &&& unit.device == device
    &&& unit.executed(
        AutotuneKeyView { num_operations: unit.num_operations, shape: trace_shape(unit.trace@) },
        handles_before,
        handles_after,
        record_before,
        record_after,
        decisions_before,
        decisions_after,
        outcome,
    )
}

/// Runs one operation by itself on the device.
pub fn run_direct<D: ComputeDevice>(
    context: &mut Context,
    client: &mut ComputeClient<D>,
    op: &OperationDescription,
) -> (outcome: Result<(), FusionError>)
    ensures
        final(context).tensors == old(context).tensors,
        operation_ran(
            op@,
            old(context).handles,
            final(context).handles,
            old(client).exchanges(),
            final(client).exchanges(),
            outcome,
        ),
        handles_kept(old(context).handles, final(context).handles),
        extends(old(client).exchanges(), final(client).exchanges()),
        outcome is Ok ==> final(client).exchanges().len() == old(client).exchanges().len() + 1
            && final(context).handles@.contains_key(op@.out.id),
{
    let mut outputs: Vec<TensorDescription> = Vec::new();
    outputs.push(op.out.clone());
    assert(tensor_views(outputs@) =~= seq![op@.out]);
    let inputs = match context.handles.bind(&op.inputs, &outputs) {
        Ok(storages) => storages,
        Err(fault) => {
            return Err(fault);
        },
    };
    let answer = match client.run(op, &inputs) {
        Ok(storage) => {
            let mut storages: Vec<Handle> = Vec::new();
            storages.push(storage);
            assert(crate::device::storages_of(storages@) =~= seq![storage@]);
            Ok(storages)
        },
        Err(failure) => Err(failure),
    };
    let outcome = context.handles.conclude_launch(&outputs, answer);
    proof {
        assert(has_id(seq![op@.out], op@.out.id)) by {
            assert(seq![op@.out][0].id == op@.out.id);
        }
        let before = old(client).exchanges();
        let after = client.exchanges();
        assert(before.is_prefix_of(after)) by {
            assert forall|i: int| 0 <= i < before.len() implies before[i] == after[i] by {
                assert(after.drop_last()[i] == after[i]);
            }
        }
    }
    outcome
}

/// Runs a fusable run as one unit: records its trace, takes the compiled
/// variants for its signature, compiling them if the signature is new, binds
/// the shapes of its boundary and executes it.
pub fn run_fused<D: ComputeDevice>(
    compiled: &mut CompiledKernels,
    context: &mut Context,
    client: &mut ComputeClient<D>,
    tuner: &mut AutotuneCache,
    device: DeviceId,
    run: Vec<OperationDescription>,
) -> (outcome: Result<Execution, FusionError>)
    ensures
        exists|unit: ElementWise<ExecutionPhase>|
            {
                &&& #[trigger] fused_ran(
                    unit,
                    operation_views(run@),
                    device,
                    old(context).handles,
                    final(context).handles,
                    old(client).exchanges(),
                    final(client).exchanges(),
                    old(tuner)@,
                    final(tuner)@,
                    outcome,
                )
                &&& old(compiled).well_formed() ==> unit.phase.compiled_from(unit.trace@)
            },
        old(compiled).well_formed() ==> final(compiled).well_formed(),
        final(compiled).signatures() == (if old(compiled).signatures().contains(
            signature_of(operation_views(run@)),
        ) {
            old(compiled).signatures()
        } else {
            old(compiled).signatures().push(signature_of(operation_views(run@)))
        }),
        handles_kept(old(context).handles, final(context).handles),
        extends(old(client).exchanges(), final(client).exchanges()),
        old(tuner)@.submap_of(final(tuner)@),
        outcome matches Ok(execution) ==> final(client).exchanges().len()
            == old(client).exchanges().len() + requests_of(SegmentExecution::Fused(execution)),
        outcome is Ok ==> forall|id: TensorId| #[trigger]
            has_id(boundary_outputs(operation_views(run@)), id)
                ==> final(context).handles@.contains_key(id),
{
    let ghost views = operation_views(run@);
    let count = run.len();
    let trace = Trace::record(run);
    let mut unit = compiled.obtain(trace, count, device);

    context.tensors = HashMap::new();
    let inputs = unit.trace.inputs();
    let outputs = unit.trace.outputs();
    let mut i: usize = inputs.len();
    while i > 0
        invariant
            i <= inputs@.len(),
            context.handles == old(context).handles,
            i < inputs@.len() ==> context.tensors@.contains_key(inputs@[i as int].id.value)
                && context.tensors@[inputs@[i as int].id.value]@ == inputs@[i as int]@,
        decreases i,
    {
        i -= 1;
        context.bind_shape(&inputs[i]);
    }
    let mut k: usize = outputs.len();
    while k > 0
        invariant
            k <= outputs@.len(),
            context.handles == old(context).handles,
            k < outputs@.len() ==> context.tensors@.contains_key(outputs@[k as int].id.value)
                && context.tensors@[outputs@[k as int].id.value]@ == outputs@[k as int]@,
            outputs@.len() == 0 && inputs@.len() > 0 ==> context.tensors@.contains_key(
                inputs@[0].id.value,
            ) && context.tensors@[inputs@[0].id.value]@ == inputs@[0]@,
        decreases k,
    {
        k -= 1;
        context.bind_shape(&outputs[k]);
    }
    proof {
        if outputs@.len() > 0 {
            assert(unit.trace@.outputs[0] == outputs@[0]@);
        } else if inputs@.len() > 0 {
            assert(unit.trace@.inputs[0] == inputs@[0]@);
        }
        assert(crate::optimization::representative_shape(unit.trace@, context.tensors@)
            == trace_shape(unit.trace@));
    }

    let ghost record_before = client.exchanges();
    let ghost tensors_bound = context.tensors@;
    let outcome = unit.execute(context, client, tuner);
    proof {
        unit.lemma_execution_only_adds(
            unit.key(tensors_bound),
            old(context).handles,
            context.handles,
            record_before,
            client.exchanges(),
            old(tuner)@,
            tuner@,
            outcome,
        );
        assert(fused_ran(
            unit,
            views,
            device,
            old(context).handles,
            context.handles,
            old(client).exchanges(),
            client.exchanges(),
            old(tuner)@,
            tuner@,
            outcome,
        ));
        if outcome is Ok {
            lemma_success_binds_outputs(
                unit,
                unit.key(tensors_bound),
                old(context).handles,
                context.handles,
                record_before,
                client.exchanges(),
                old(tuner)@,
                tuner@,
                outcome,
            );
        }
    }
    outcome
}

/// An execution that succeeds leaves every output of its trace with
/// storage.
pub proof fn lemma_success_binds_outputs(
    unit: ElementWise<ExecutionPhase>,
    key: AutotuneKeyView,
    handles_before: HandleContainer,
    handles_after: HandleContainer,
    record_before: Seq<Exchange>,
    record_after: Seq<Exchange>,
    decisions_before: Map<(DeviceId, AutotuneKeyView), usize>,
    decisions_after: Map<(DeviceId, AutotuneKeyView), usize>,
    outcome: Result<Execution, FusionError>,
)
    requires
        outcome is Ok,
        unit.executed(
            key,
            handles_before,
            handles_after,
            record_before,
            record_after,
            decisions_before,
            decisions_after,
            outcome,
        ),
    ensures
        forall|id: TensorId| #[trigger]
            has_id(unit.trace@.outputs, id) ==> handles_after@.contains_key(id),
{
    crate::context::lemma_binding_faults(
        unit.trace@.inputs,
        unit.trace@.outputs,
        handles_before@,
        handles_before.ids(),
    );
}

/// How one segment of a drained queue was carried out.
pub enum SegmentExecution {
    /// A single operation, run by itself.
    Direct,
    /// A fusable run, executed as one unit.
    Fused(Execution),
}

/// How many exchanges an execution has with the device: one for an
/// operation run by itself or a kernel run on a decision in the registry;
/// four when a trial measured the three candidates before the kernel ran.
pub open spec fn requests_of(execution: SegmentExecution) -> nat {
    match execution {
        SegmentExecution::Direct => 1,
        SegmentExecution::Fused(execution) => if execution.trial is Some {
            4
        } else {
            1
        },
    }
}

/// How many exchanges a sequence of executions has with the device.
pub open spec fn requests_made(executions: Seq<SegmentExecution>) -> nat
    decreases executions.len(),
{
    if executions.len() == 0 {
        0
    } else {
        requests_made(executions.drop_last()) + requests_of(executions.last())
    }
}

/// The tensors a segment leaves behind: the boundary outputs of a fused run,
/// or the result of a single operation.
pub open spec fn segment_results(ops: Seq<OperationView>, segment: Segment) -> Seq<TensorView> {
    if segment.fused {
        boundary_outputs(ops.subrange(segment.start as int, segment.end as int))
    } else {
        seq![ops[segment.start as int].out]
    }
}

/// What a drain changes, at one moment: the handle table, the record of
/// exchanges with the device, and the decisions in the registry.
pub struct Snapshot {
    pub handles: HandleContainer,
    pub record: Seq<Exchange>,
    pub decisions: Map<(DeviceId, AutotuneKeyView), usize>,
}

/// The outcome of a segment as the outcome of the unit that ran it.
pub open spec fn as_fused(outcome: Result<SegmentExecution, FusionError>) -> Result<
    Execution,
    FusionError,
> {
    match outcome {
        Ok(SegmentExecution::Fused(execution)) => Ok(execution),
        Ok(SegmentExecution::Direct) => Err(FusionError::OutputMismatch),
        Err(failure) => Err(failure),
    }
}

/// The outcome of a segment as the outcome of the operation that ran.
pub open spec fn as_direct(outcome: Result<SegmentExecution, FusionError>) -> Result<
    (),
    FusionError,
> {
    match outcome {
        Ok(_) => Ok(()),
        Err(failure) => Err(failure),
    }
}

/// What carrying out one segment does, from the moment before it to the
/// moment after. A fused segment is recorded as a trace and executed as one
/// unit for the device; when the kernels kept so far are sound, so are the
/// unit's. A single operation is run by itself and leaves the registry
/// alone. The outcome is the one the exchanges recorded in `after` lead to.
pub open spec fn segment_ran(
    ops: Seq<OperationView>,
    segment: Segment,
    device: DeviceId,
    sound: bool,
    before: Snapshot,
    after: Snapshot,
    outcome: Result<SegmentExecution, FusionError>,
) -> bool {
    if segment.fused {
        &&& outcome is Ok ==> outcome->Ok_0 is Fused
        &&& exists|unit: ElementWise<ExecutionPhase>|
            {
                &&& #[trigger] fused_ran(
                    unit,
                    ops.subrange(segment.start as int, segment.end as int),
                    device,
                    before.handles,
                    after.handles,
                    before.record,
                    after.record,
                    before.decisions,
                    after.decisions,
                    as_fused(outcome),
                )
                &&& sound ==> unit.phase.compiled_from(unit.trace@)
            }
    } else {
        &&& outcome is Ok ==> outcome->Ok_0 is Direct
        &&& after.decisions == before.decisions
        &&& operation_ran(
            ops[segment.start as int],
            before.handles,
            after.handles,
            before.record,
            after.record,
            as_direct(outcome),
        )
    }
}

/// Segment `i` of the plan was carried out with success, from moment `i` to
/// moment `i + 1`, as execution `i` says.
pub open spec fn step_ran(
    ops: Seq<OperationView>,
    plan: Seq<Segment>,
    device: DeviceId,
    sound: bool,
    moments: Seq<Snapshot>,
    executions: Seq<SegmentExecution>,
    i: int,
) -> bool {
    segment_ran(
        ops,
        plan[i],
        device,
        sound,
        moments[i],
        moments[i + 1],
        Ok(executions[i]),
    )
}

/// The segments of a plan were carried out in order, one moment after the
/// other. Each execution stands for a segment that succeeded. With a
/// failure, the segment after the last execution was attempted from the
/// moment before last and failed with exactly that cause at the last
/// moment; without one, every segment of the plan has its execution.
pub open spec fn carried_out(
    ops: Seq<OperationView>,
    plan: Seq<Segment>,
    device: DeviceId,
    sound: bool,
    moments: Seq<Snapshot>,
    executions: Seq<SegmentExecution>,
    failure: Option<FusionError>,
) -> bool {
    let done = executions.len() as int;
    &&& done <= plan.len()
    &&& forall|i: int|
        0 <= i < done ==> #[trigger] step_ran(ops, plan, device, sound, moments, executions, i)
    &&& match failure {
        Some(cause) => {
            &&& done < plan.len()
            &&& moments.len() == done + 2
            &&& segment_ran(
                ops,
                plan[done],
                device,
                sound,
                moments[done],
                moments[done + 1],
                Err(cause),
            )
        },
        None => done == plan.len() && moments.len() == done + 1,
    }
}

/// What a drain did: the split of the queue and, segment by segment, how
/// each was carried out.
pub struct DrainReport {
    pub segments: Vec<Segment>,
    pub executions: Vec<SegmentExecution>,
}

/// A drain that stopped: how many operations were carried out before the
/// segment that failed, and why that segment failed.
#[derive(Clone, Copy, Debug, PartialEq, Eq, Structural)]
pub struct DrainError {
    pub completed: usize,
    pub cause: FusionError,
}

/// The cause of a drain that stopped, if it stopped.
pub open spec fn cause_of(outcome: Result<DrainReport, DrainError>) -> Option<FusionError> {
    match outcome {
        Ok(_) => None,
        Err(failure) => Some(failure.cause),
    }
}

/// A value read back from a device: the raw bytes behind a tensor at the
/// moment of the read, with the element kind and shape to read them by.
#[derive(Debug)]
pub struct Reader {
    pub kind: ElementKind,
    pub shape: Vec<usize>,
    pub bytes: Vec<u8>,
}

/// The dispatch server of one device.
pub struct FusionServer<D: ComputeDevice> {
    /// Operations registered and not yet carried out.
    pub stream: Stream,
    /// Shapes bound for the kernel that ran last, and the handle table.
    pub context: Context,
    /// The channel to the device.
    pub client: ComputeClient<D>,
    /// The identity of the device.
    pub device: DeviceId,
    /// The kernels compiled so far.
    pub compiled: CompiledKernels,
    /// The registry of autotuning decisions, shared with other servers.
    pub tuner: AutotuneRegistry,
}

impl<D: ComputeDevice> FusionServer<D> {
    /// What a drain changes of a server, with the decisions of a registry.
    pub open spec fn moment(
        self,
        decisions: Map<(DeviceId, AutotuneKeyView), usize>,
    ) -> Snapshot {
        Snapshot { handles: self.context.handles, record: self.client.exchanges(), decisions }
    }

    /// What a drain leaves behind, given what the registry held before and
    /// holds after.
    ///
    /// An empty queue changes nothing and asks nothing of the device. A
    /// drain unbinds no handle, takes no exchange back, replaces no decision
    /// and keeps every compiled kernel. The segments of the split were
    /// carried out in order, each from the state the one before left, as
    /// `carried_out` says: so what the device was asked for each segment,
    /// what its answers led to, and what the registry holds afterwards are
    /// all fixed. When the drain succeeds the queue is empty and the report
    /// holds the split and the executions. When it fails, the segments
    /// before the failing one succeeded, the cause is the failure of the
    /// segment that starts at `completed`, and that segment and everything
    /// after it are still queued.
    pub open spec fn drained_with(
        before: Self,
        after: Self,
        decisions_before: Map<(DeviceId, AutotuneKeyView), usize>,
        decisions_after: Map<(DeviceId, AutotuneKeyView), usize>,
        outcome: Result<DrainReport, DrainError>,
    ) -> bool {
        let ops = before.stream@;
        let plan = segments_from(ops, 0, before.context.handles@.dom());
        &&& after.device == before.device
        &&& handles_kept(before.context.handles, after.context.handles)
        &&& extends(before.client.exchanges(), after.client.exchanges())
        &&& decisions_before.submap_of(decisions_after)
        &&& before.compiled.signatures().is_prefix_of(after.compiled.signatures())
        &&& before.compiled.well_formed() ==> after.compiled.well_formed()
        &&& ops.len() == 0 ==> outcome is Ok && after.stream == before.stream && after.context
            == before.context && after.client == before.client && after.compiled
            == before.compiled && decisions_after == decisions_before
        &&& exists|moments: Seq<Snapshot>, executions: Seq<SegmentExecution>|
            {
                &&& #[trigger] carried_out(
                    ops,
                    plan,
                    before.device,
                    before.compiled.well_formed(),
                    moments,
                    executions,
                    cause_of(outcome),
                )
                &&& moments.first() == before.moment(decisions_before)
                &&& moments.last() == after.moment(decisions_after)
                &&& match outcome {
                    Ok(report) => executions == report.executions@,
                    Err(failure) => plan[executions.len() as int].start == failure.completed,
                }
            }
        &&& match outcome {
            Ok(report) => {
                &&& after.stream@.len() == 0
                &&& report.segments@ == plan
                &&& report.executions@.len() == plan.len()
                &&& forall|i: int|
                    0 <= i < plan.len() ==> ((#[trigger] report.executions@[i]) is Fused
                        <==> plan[i].fused)
                &&& after.client.exchanges().len() == before.client.exchanges().len()
                    + requests_made(report.executions@)
                &&& forall|i: int, id: TensorId|
                    0 <= i < plan.len() && #[trigger] has_id(
                        segment_results(before.stream@, plan[i]),
                        id,
                    ) ==> after.context.handles@.contains_key(id)
            },
            Err(failure) => {
                &&& failure.completed < before.stream@.len()
                &&& after.stream@ == before.stream@.skip(failure.completed as int)
            },
        }
    }

    /// What a drain leaves behind, whatever the registry held: see
    /// `drained_with`.
    pub open spec fn drained(
        before: Self,
        after: Self,
        outcome: Result<DrainReport, DrainError>,
    ) -> bool {
        exists|
            decisions_before: Map<(DeviceId, AutotuneKeyView), usize>,
            decisions_after: Map<(DeviceId, AutotuneKeyView), usize>,
        | #[trigger]
            Self::drained_with(before, after, decisions_before, decisions_after, outcome)
    }

    /// A drain of an empty queue succeeds and leaves the server as it was.
    pub proof fn lemma_drain_of_empty(
        before: Self,
        after: Self,
        outcome: Result<DrainReport, DrainError>,
    )
        requires
            before.stream@.len() == 0,
            Self::drained(before, after, outcome),
        ensures
            outcome is Ok,
            after.stream == before.stream,
            after.context == before.context,
            after.client == before.client,
            after.compiled == before.compiled,
            after.device == before.device,
    {
        let (decisions_before, decisions_after) = choose|
            decisions_before: Map<(DeviceId, AutotuneKeyView), usize>,
            decisions_after: Map<(DeviceId, AutotuneKeyView), usize>,
        | #[trigger]
            Self::drained_with(before, after, decisions_before, decisions_after, outcome);
    }

    /// A server for the device, with nothing queued and no handle.
    pub fn new(device: D, tuner: AutotuneRegistry) -> (server: Self)
        ensures
            server.stream@.len() == 0,
            server.context.handles@ == Map::<TensorId, u64>::empty(),
            server.context.handles.ids() == 0,
            server.client.exchanges() == Seq::<Exchange>::empty(),
            server.compiled.well_formed(),
            server.compiled.signatures().len() == 0,
            server.tuner == tuner,
    {
        let client = ComputeClient::new(device);
        let device = client.id();
        FusionServer {
            stream: Stream::new(),
            context: Context::new(HashMap::new(), HandleContainer::new()),
            client,
            device,
            compiled: CompiledKernels::new(),
            tuner,
        }
    }

    /// Appends an operation to the stream. Nothing is executed.
    pub fn register(&mut self, description: OperationDescription)
        ensures
            final(self).stream@ == old(self).stream@.push(description@),
            final(self).context == old(self).context,
            final(self).client == old(self).client,
            final(self).device == old(self).device,
            final(self).compiled == old(self).compiled,
    {
        self.stream.register(description);
    }

    /// Hands out a fresh tensor identity with no storage bound to it.
    pub fn create_empty_handle(&mut self) -> (id: TensorId)
        ensures
            id.value == old(self).context.handles.ids(),
            !old(self).context.handles@.contains_key(id),
            final(self).context.handles.ids() == old(self).context.handles.ids() + 1,
            final(self).context.handles@ == old(self).context.handles@,
            final(self).stream == old(self).stream,
            final(self).client == old(self).client,
            final(self).device == old(self).device,
            final(self).compiled == old(self).compiled,
    {
        self.context.handles.create_empty_handle()
    }

    /// Hands out a fresh tensor identity that owns the given storage.
    pub fn register_tensor(&mut self, handle: Handle) -> (id: TensorId)
        ensures
            id.value == old(self).context.handles.ids(),
            !old(self).context.handles@.contains_key(id),
            final(self).context.handles.ids() == old(self).context.handles.ids() + 1,
            final(self).context.handles@ == old(self).context.handles@.insert(id, handle@),
            final(self).context.tensors == old(self).context.tensors,
            final(self).stream == old(self).stream,
            final(self).client == old(self).client,
            final(self).device == old(self).device,
            final(self).compiled == old(self).compiled,
    {
        self.context.handles.register_new(handle)
    }

    /// Drops the storage a tensor owns, if it owns any, and gives it back to
    /// the device. An identity without storage is left alone.
    pub fn drop_tensor_handle(&mut self, id: TensorId)
        ensures
            final(self).context.handles@ == old(self).context.handles@.remove(id),
            final(self).context.handles.ids() == old(self).context.handles.ids(),
            final(self).stream == old(self).stream,
            final(self).device == old(self).device,
            final(self).compiled == old(self).compiled,
            if old(self).context.handles@.contains_key(id) {
                asked(
                    old(self).client.exchanges(),
                    final(self).client.exchanges(),
                    DeviceRequest::Release { storage: old(self).context.handles@[id] },
                )
            } else {
                final(self).client.exchanges() == old(self).client.exchanges()
            },
    {
        match self.context.handles.remove_handle(id) {
            Some(handle) => {
                self.client.release(handle);
            },
            None => {},
        }
    }

    /// Carries out one segment of a queue: a fused run as one unit, a single
    /// operation by itself.
    pub fn carry_out(
        &mut self,
        ops: &Vec<OperationDescription>,
        segment: Segment,
        tuner: &mut AutotuneCache,
    ) -> (outcome: Result<SegmentExecution, FusionError>)
        requires
            segment.start < segment.end <= ops@.len(),
        ensures
            segment_ran(
                operation_views(ops@),
                segment,
                old(self).device,
                old(self).compiled.well_formed(),
                old(self).moment(old(tuner)@),
                final(self).moment(final(tuner)@),
                outcome,
            ),
            final(self).stream == old(self).stream,
            final(self).device == old(self).device,
            final(self).tuner == old(self).tuner,
            handles_kept(old(self).context.handles, final(self).context.handles),
            extends(old(self).client.exchanges(), final(self).client.exchanges()),
            old(tuner)@.submap_of(final(tuner)@),
            old(self).compiled.signatures().is_prefix_of(final(self).compiled.signatures()),
            old(self).compiled.well_formed() ==> final(self).compiled.well_formed(),
            outcome matches Ok(execution) ==> final(self).client.exchanges().len()
                == old(self).client.exchanges().len() + requests_of(execution),
            outcome is Ok ==> forall|id: TensorId| #[trigger]
                has_id(segment_results(operation_views(ops@), segment), id)
                    ==> final(self).context.handles@.contains_key(id),
    {
        if segment.fused {
            let run = clone_range(ops, segment.start, segment.end);
            let ran = run_fused(
                &mut self.compiled,
                &mut self.context,
                &mut self.client,
                tuner,
                self.device,
                run,
            );
            let outcome = match ran {
                Ok(execution) => Ok(SegmentExecution::Fused(execution)),
                Err(failure) => Err(failure),
            };
            proof {
                assert(as_fused(outcome) == ran);
                let views = operation_views(ops@).subrange(segment.start as int, segment.end as int);
                let unit = choose|unit: ElementWise<ExecutionPhase>|
                    {
                        &&& #[trigger] fused_ran(
                            unit,
                            views,
                            self.device,
                            old(self).context.handles,
                            self.context.handles,
                            old(self).client.exchanges(),
                            self.client.exchanges(),
                            old(tuner)@,
                            tuner@,
                            ran,
                        )
                        &&& old(self).compiled.well_formed() ==> unit.phase.compiled_from(
                            unit.trace@,
                        )
                    };
                let before = old(self).moment(old(tuner)@);
                let after = self.moment(tuner@);
                assert(fused_ran(
                    unit,
                    views,
                    old(self).device,
                    before.handles,
                    after.handles,
                    before.record,
                    after.record,
                    before.decisions,
                    after.decisions,
                    as_fused(outcome),
                ));
                assert(segment_ran(
                    operation_views(ops@),
                    segment,
                    old(self).device,
                    old(self).compiled.well_formed(),
                    before,
                    after,
                    outcome,
                ));
            }
            outcome
        } else {
            let ran = run_direct(&mut self.context, &mut self.client, &ops[segment.start]);
            let outcome = match ran {
                Ok(()) => Ok(SegmentExecution::Direct),
                Err(failure) => Err(failure),
            };
            proof {
                assert(as_direct(outcome) == ran);
                assert(operation_views(ops@)[segment.start as int] == ops@[segment.start as int]@);
                let before = old(self).moment(old(tuner)@);
                let after = self.moment(tuner@);
                assert(operation_ran(
                    operation_views(ops@)[segment.start as int],
                    before.handles,
                    after.handles,
                    before.record,
                    after.record,
                    as_direct(outcome),
                ));
                assert(segment_ran(
                    operation_views(ops@),
                    segment,
                    old(self).device,
                    old(self).compiled.well_formed(),
                    before,
                    after,
                    outcome,
                ));
            }
            outcome
        }
    }

    /// Drains the stream against a registry the caller holds.
    pub fn drain_with(&mut self, tuner: &mut AutotuneCache) -> (outcome: Result<
        DrainReport,
        DrainError,
    >)
        ensures
            Self::drained_with(*old(self), *final(self), old(tuner)@, final(tuner)@, outcome),
            final(self).tuner == old(self).tuner,
    {
        let ghost start = self.moment(tuner@);
        if self.stream.is_empty() {
            let report = DrainReport { segments: Vec::new(), executions: Vec::new() };
            proof {
                let plan = segments_from(self.stream@, 0, self.context.handles@.dom());
                assert(report.segments@ =~= plan);
                let moments = seq![start];
                assert(carried_out(
                    self.stream@,
                    plan,
                    self.device,
                    self.compiled.well_formed(),
                    moments,
                    report.executions@,
                    None,
                ));
            }
            return Ok(report);
        }
        let plan = self.stream.segments(&self.context.handles);
        let mut ops = self.stream.take_all();
        let total = ops.len();
        let ghost views = operation_views(ops@);
        let ghost materialized = old(self).context.handles@.dom();
        let ghost sound = old(self).compiled.well_formed();
        proof {
            lemma_segments_cover(views, 0, materialized);
        }
        let mut executions: Vec<SegmentExecution> = Vec::new();
        let ghost mut moments: Seq<Snapshot> = seq![start];
        let mut s: usize = 0;
        while s < plan.len()
            invariant
                s <= plan@.len(),
                views == operation_views(ops@),
                views == old(self).stream@,
                views.len() > 0,
                plan@ == segments_from(views, 0, materialized),
                materialized == old(self).context.handles@.dom(),
                sound == old(self).compiled.well_formed(),
                start == old(self).moment(old(tuner)@),
                contiguous(plan@, 0, views.len() as int),
                self.stream@.len() == 0,
                self.device == old(self).device,
                self.tuner == old(self).tuner,
                handles_kept(old(self).context.handles, self.context.handles),
                extends(old(self).client.exchanges(), self.client.exchanges()),
                old(self).compiled.signatures().is_prefix_of(self.compiled.signatures()),
                old(self).compiled.well_formed() ==> self.compiled.well_formed(),
                old(tuner)@.submap_of(tuner@),
                executions@.len() == s,
                moments.len() == s + 1,
                moments[0] == start,
                moments[s as int] == self.moment(tuner@),
                forall|i: int|
                    0 <= i < s ==> #[trigger] step_ran(
                        views,
                        plan@,
                        self.device,
                        sound,
                        moments,
                        executions@,
                        i,
                    ),
                forall|i: int|
                    0 <= i < s ==> ((#[trigger] executions@[i]) is Fused <==> plan@[i].fused),
                self.client.exchanges().len() == old(self).client.exchanges().len()
                    + requests_made(executions@),
                forall|i: int, id: TensorId|
                    0 <= i < s && #[trigger] has_id(segment_results(views, plan@[i]), id)
                        ==> self.context.handles@.contains_key(id),
            decreases plan@.len() - s,
        {
            let segment = plan[s];
            assert(segment.start < segment.end);
            assert(segment.end <= views.len()) by {
                if s + 1 < plan@.len() {
                    assert(plan@[s as int].end == plan@[s + 1].start);
                    assert(plan@[s + 1].start < plan@[s + 1].end);
                    lemma_segment_ends_in_queue(plan@, views.len() as int, s + 1);
                }
            }
            let ghost signatures_before = self.compiled.signatures();
            let ghost handles_before = self.context.handles;
            let ghost record_before = self.client.exchanges();
            let ghost decisions_before = tuner@;
            let ghost here = self.moment(tuner@);
            let ghost sound_here = self.compiled.well_formed();
            let step = self.carry_out(&ops, segment, tuner);
            let ghost there = self.moment(tuner@);
            proof {
                lemma_segment_ran_weakens(
                    views,
                    segment,
                    self.device,
                    sound_here,
                    sound,
                    here,
                    there,
                    step,
                );
            }
            assert(old(self).compiled.signatures().is_prefix_of(self.compiled.signatures())) by {
                assert(signatures_before.is_prefix_of(self.compiled.signatures()));
            }
            assert(handles_kept(old(self).context.handles, self.context.handles)) by {
                assert(handles_kept(handles_before, self.context.handles));
                assert forall|id: TensorId|
                    old(self).context.handles@.contains_key(id) implies self.context.handles@.contains_key(
                    id,
                ) && self.context.handles@[id] == old(self).context.handles@[id] by {
                    assert(handles_before@.contains_key(id));
                }
            }
            assert(extends(old(self).client.exchanges(), self.client.exchanges())) by {
                assert(extends(record_before, self.client.exchanges()));
            }
            assert(old(tuner)@.submap_of(tuner@)) by {
                assert(decisions_before.submap_of(tuner@));
                let first = old(tuner)@;
                assert(first.submap_of(decisions_before));
                assert forall|k: (DeviceId, AutotuneKeyView)| #[trigger]
                    first.dom().contains(k) implies tuner@.dom().contains(k) && first[k]
                    == tuner@[k] by {
                    assert(decisions_before.dom().contains(k));
                    assert(decisions_before[k] == first[k]);
                }
            }
            match step {
                Ok(execution) => {
                    let ghost carried = executions@;
                    let ghost earlier = moments;
                    executions.push(execution);
                    proof {
                        moments = moments.push(there);
                        assert(executions@.drop_last() =~= carried);
                        assert forall|i: int| 0 <= i < s + 1 implies #[trigger] step_ran(
                            views,
                            plan@,
                            self.device,
                            sound,
                            moments,
                            executions@,
                            i,
                        ) by {
                            if i < s {
                                assert(step_ran(
                                    views,
                                    plan@,
                                    self.device,
                                    sound,
                                    earlier,
                                    carried,
                                    i,
                                ));
                                assert(moments[i] == earlier[i]);
                                assert(moments[i + 1] == earlier[i + 1]);
                                assert(executions@[i] == carried[i]);
                            } else {
                                assert(moments[i] == here);
                                assert(moments[i + 1] == there);
                            }
                        }
                        assert forall|i: int, id: TensorId|
                            0 <= i < s + 1 && #[trigger] has_id(
                                segment_results(views, plan@[i]),
                                id,
                            ) implies self.context.handles@.contains_key(id) by {
                            if i < s {
                                assert(handles_before@.contains_key(id));
                            }
                        }
                    }
                },
                Err(cause) => {
                    let remaining = ops.split_off(segment.start);
                    self.stream.restore(remaining);
                    assert(self.stream@ =~= views.skip(segment.start as int));
                    let outcome = Err(DrainError { completed: segment.start, cause });
                    proof {
                        let earlier = moments;
                        moments = moments.push(there);
                        assert forall|i: int| 0 <= i < s implies #[trigger] step_ran(
                            views,
                            plan@,
                            self.device,
                            sound,
                            moments,
                            executions@,
                            i,
                        ) by {
                            assert(step_ran(
                                views,
                                plan@,
                                self.device,
                                sound,
                                earlier,
                                executions@,
                                i,
                            ));
                            assert(moments[i] == earlier[i]);
                            assert(moments[i + 1] == earlier[i + 1]);
                        }
                        assert(moments[s as int] == here);
                        assert(moments[s + 1] == there);
                        assert(carried_out(
                            views,
                            plan@,
                            self.device,
                            sound,
                            moments,
                            executions@,
                            cause_of(outcome),
                        ));
                    }
                    return outcome;
                },
            }
            s += 1;
        }
        let outcome = Ok(DrainReport { segments: plan, executions });
        proof {
            assert(carried_out(
                views,
                outcome->Ok_0.segments@,
                self.device,
                sound,
                moments,
                outcome->Ok_0.executions@,
                cause_of(outcome),
            ));
        }
        outcome
    }

    /// Drains the stream: carries out every queued operation in queue order,
    /// each maximal fusable run as one fused kernel and every other
    /// operation by itself. The shared registry is held for the duration.
    pub fn drain_streams(&mut self) -> (outcome: Result<DrainReport, DrainError>)
        ensures
            Self::drained(*old(self), *final(self), outcome),
            final(self).tuner == old(self).tuner,
    {
        let registry = share(&self.tuner.decisions);
        let mut guard = lock(&*registry);
        let cache = guarded(&mut guard);
        let ghost decisions_before = cache@;
        let outcome = self.drain_with(cache);
        assert(Self::drained_with(*old(self), *self, decisions_before, cache@, outcome));
        outcome
    }

    /// What fetching a tensor from a server does once its stream is drained.
    /// Nothing but the record of exchanges changes. A tensor that owns
    /// storage has exactly that storage read, and the device's answer
    /// decides the rest: its bytes come back in a reader of the kind asked
    /// for and the tensor's shape; its failure is passed on. A tensor
    /// without storage is a missing handle, and nothing is asked.
    pub open spec fn fetched(
        before: Self,
        after: Self,
        tensor: TensorView,
        kind: ElementKind,
        outcome: Result<Reader, FusionError>,
    ) -> bool {
        &&& after.stream == before.stream
        &&& after.context == before.context
        &&& after.compiled == before.compiled
        &&& after.device == before.device
        &&& if before.context.handles@.contains_key(tensor.id) {
            &&& asked(
                before.client.exchanges(),
                after.client.exchanges(),
                DeviceRequest::Read { storage: before.context.handles@[tensor.id] },
            )
            &&& after.client.exchanges().last().answer is Read
            &&& match after.client.exchanges().last().answer->Read_0 {
                Ok(bytes) => {
                    &&& outcome is Ok
                    &&& outcome->Ok_0.kind == kind
                    &&& outcome->Ok_0.shape@ == tensor.shape
                    &&& outcome->Ok_0.bytes@ == bytes
                },
                Err(failure) => outcome is Err && outcome->Err_0 == FusionError::Device(failure),
            }
        } else {
            &&& after.client == before.client
            &&& outcome is Err
            &&& outcome->Err_0 == FusionError::MissingHandle(tensor.id)
        }
    }

    /// What a read does: the stream is drained first; if the drain fails the
    /// read stops there with the drain's cause; otherwise the tensor is
    /// fetched from the drained server.
    pub open spec fn read_back(
        before: Self,
        after: Self,
        tensor: TensorView,
        kind: ElementKind,
        outcome: Result<Reader, FusionError>,
    ) -> bool {
        exists|mid: Self, drain: Result<DrainReport, DrainError>|
            {
                &&& #[trigger] Self::drained(before, mid, drain)
                &&& match drain {
                    Ok(_) => Self::fetched(mid, after, tensor, kind, outcome),
                    Err(failure) => after == mid && outcome == Err::<Reader, FusionError>(
                        failure.cause,
                    ),
                }
            }
    }

    /// What the destination of a transfer does with bytes: it asks its
    /// device to store exactly these bytes, with the kind and shape given,
    /// and the device's answer decides the rest: the fresh storage is bound
    /// to the next identity, which is the result; a failure is passed on and
    /// binds nothing.
    pub open spec fn received(
        before: Self,
        after: Self,
        kind: ElementKind,
        shape: Seq<usize>,
        bytes: Seq<u8>,
        outcome: Result<TensorId, FusionError>,
    ) -> bool {
        &&& after.stream == before.stream
        &&& after.compiled == before.compiled
        &&& after.device == before.device
        &&& after.context.tensors == before.context.tensors
        &&& asked(
            before.client.exchanges(),
            after.client.exchanges(),
            upload_of(kind, shape, bytes),
        )
        &&& after.client.exchanges().last().answer is Uploaded
        &&& HandleContainer::taken_in(
            before.context.handles,
            after.context.handles,
            after.client.exchanges().last().answer->Uploaded_0,
            outcome,
        )
    }

    /// What moving a tensor off a server does once its stream is drained.
    ///
    /// A tensor without storage is a missing handle and nothing happens.
    /// Otherwise its storage is read on the source, and the answer decides:
    /// a failure is passed on and nothing else happens; the bytes read are
    /// handed to the destination, which stores exactly them, as `received`
    /// says. If the destination fails, the source keeps the tensor. If it
    /// succeeds, its identity for the tensor is the result, and the source
    /// unbinds the tensor and gives its storage back.
    pub open spec fn moved(
        before: Self,
        after: Self,
        other_before: Self,
        other_after: Self,
        tensor: TensorView,
        kind: ElementKind,
        outcome: Result<TensorId, FusionError>,
    ) -> bool {
        let n = before.client.exchanges().len() as int;
        let record = after.client.exchanges();
        &&& after.stream == before.stream
        &&& after.compiled == before.compiled
        &&& after.device == before.device
        &&& after.context.tensors == before.context.tensors
        &&& after.context.handles.ids() == before.context.handles.ids()
        &&& if before.context.handles@.contains_key(tensor.id) {
            let storage = before.context.handles@[tensor.id];
            &&& record.len() > n
            &&& asked(
                before.client.exchanges(),
                record.subrange(0, n + 1),
                DeviceRequest::Read { storage },
            )
            &&& record[n].answer is Read
            &&& match record[n].answer->Read_0 {
                Err(failure) => {
                    &&& outcome == Err::<TensorId, FusionError>(FusionError::Device(failure))
                    &&& record.len() == n + 1
                    &&& after.context == before.context
                    &&& other_after.stream == other_before.stream
                    &&& other_after.context == other_before.context
                    &&& other_after.client == other_before.client
                    &&& other_after.compiled == other_before.compiled
                    &&& other_after.device == other_before.device
                },
                Ok(bytes) => {
                    &&& Self::received(
                        other_before,
                        other_after,
                        kind,
                        tensor.shape,
                        bytes,
                        outcome,
                    )
                    &&& if outcome is Ok {
                        &&& record.len() == n + 2
                        &&& record[n + 1] == (Exchange {
                            request: DeviceRequest::Release { storage },
                            answer: DeviceAnswer::Released,
                        })
                        &&& after.context.handles@ == before.context.handles@.remove(tensor.id)
                    } else {
                        &&& record.len() == n + 1
                        &&& after.context == before.context
                    }
                },
            }
        } else {
            &&& outcome == Err::<TensorId, FusionError>(FusionError::MissingHandle(tensor.id))
            &&& after.context == before.context
            &&& after.client == before.client
            &&& other_after.stream == other_before.stream
            &&& other_after.context == other_before.context
            &&& other_after.client == other_before.client
            &&& other_after.compiled == other_before.compiled
            &&& other_after.device == other_before.device
        }
    }

    /// What a transfer does: the source stream is drained first; if the
    /// drain fails the transfer stops there with the drain's cause and the
    /// destination is untouched; otherwise the tensor is moved off the
    /// drained source.
    pub open spec fn transferred(
        before: Self,
        after: Self,
        other_before: Self,
        other_after: Self,
        tensor: TensorView,
        kind: ElementKind,
        outcome: Result<TensorId, FusionError>,
    ) -> bool {
        exists|mid: Self, drain: Result<DrainReport, DrainError>|
            {
                &&& #[trigger] Self::drained(before, mid, drain)
                &&& match drain {
                    Ok(_) => Self::moved(
                        mid,
                        after,
                        other_before,
                        other_after,
                        tensor,
                        kind,
                        outcome,
                    ),
                    Err(failure) => after == mid && other_after == other_before && outcome
                        == Err::<TensorId, FusionError>(failure.cause),
                }
            }
    }

    /// A transfer that starts on a drained source is a move, whatever
    /// intermediate state the drain inside it went through.
    pub proof fn lemma_transfer_of_drained(
        before: Self,
        after: Self,
        other_before: Self,
        other_after: Self,
        tensor: TensorView,
        kind: ElementKind,
        outcome: Result<TensorId, FusionError>,
    )
        requires
            before.stream@.len() == 0,
            Self::transferred(before, after, other_before, other_after, tensor, kind, outcome),
        ensures
            Self::moved(before, after, other_before, other_after, tensor, kind, outcome),
    {
        let (mid, drain) = choose|mid: Self, drain: Result<DrainReport, DrainError>|
            {
                &&& #[trigger] Self::drained(before, mid, drain)
                &&& match drain {
                    Ok(_) => Self::moved(
                        mid,
                        after,
                        other_before,
                        other_after,
                        tensor,
                        kind,
                        outcome,
                    ),
                    Err(failure) => after == mid && other_after == other_before && outcome
                        == Err::<TensorId, FusionError>(failure.cause),
                }
            };
        Self::lemma_drain_of_empty(before, mid, drain);
    }

    /// Reads a tensor back: drains the stream, so that every operation
    /// queued before the call has been carried out, then asks the device for
    /// the bytes behind the tensor.
    pub fn read(&mut self, tensor: &TensorDescription, kind: ElementKind) -> (outcome: Result<
        Reader,
        FusionError,
    >)
        ensures
            Self::read_back(*old(self), *final(self), tensor@, kind, outcome),
    {
        let drain = self.drain_streams();
        let ghost mid = *self;
        let ghost drain_outcome = drain;
        match drain {
            Ok(_) => {},
            Err(failure) => {
                assert(Self::drained(*old(self), mid, drain_outcome));
                return Err(failure.cause);
            },
        }
        let outcome = self.fetch(tensor, kind);
        assert(Self::drained(*old(self), mid, drain_outcome));
        outcome
    }

    /// Asks the device for the bytes behind a tensor, without draining.
    pub fn fetch(&mut self, tensor: &TensorDescription, kind: ElementKind) -> (outcome: Result<
        Reader,
        FusionError,
    >)
        ensures
            Self::fetched(*old(self), *final(self), tensor@, kind, outcome),
            final(self).tuner == old(self).tuner,
    {
        let storage = match self.context.handles.storage_of(tensor.id) {
            Some(storage) => storage,
            None => {
                return Err(FusionError::MissingHandle(tensor.id));
            },
        };
        match self.client.read(storage) {
            Ok(bytes) => Ok(Reader { kind, shape: tensor.shape.clone(), bytes }),
            Err(failure) => Err(FusionError::Device(failure)),
        }
    }

    /// Reads a tensor of floating-point elements back.
    pub fn read_float(&mut self, tensor: &TensorDescription) -> (outcome: Result<
        Reader,
        FusionError,
    >)
        ensures
            Self::read_back(*old(self), *final(self), tensor@, ElementKind::Float, outcome),
    {
        self.read(tensor, ElementKind::Float)
    }

    /// Reads a tensor of integer elements back.
    pub fn read_int(&mut self, tensor: &TensorDescription) -> (outcome: Result<Reader, FusionError>)
        ensures
            Self::read_back(*old(self), *final(self), tensor@, ElementKind::Int, outcome),
    {
        self.read(tensor, ElementKind::Int)
    }

    /// Reads a tensor of boolean elements back.
    pub fn read_bool(&mut self, tensor: &TensorDescription) -> (outcome: Result<
        Reader,
        FusionError,
    >)
        ensures
            Self::read_back(*old(self), *final(self), tensor@, ElementKind::Bool, outcome),
    {
        self.read(tensor, ElementKind::Bool)
    }

    /// Stores bytes that another server read on this server's device and
    /// binds the fresh storage to a new identity.
    pub fn receive(&mut self, kind: ElementKind, shape: &Vec<usize>, bytes: &Vec<u8>) -> (outcome:
        Result<TensorId, FusionError>)
        ensures
            Self::received(*old(self), *final(self), kind, shape@, bytes@, outcome),
            final(self).tuner == old(self).tuner,
    {
        let answer = self.client.upload(kind, shape, bytes);
        self.context.handles.take_in(answer)
    }

    /// Moves a tensor off this server, whose stream is taken as drained:
    /// reads its bytes, hands them to the destination, and drops the tensor
    /// here once the destination holds it.
    pub fn hand_over(
        &mut self,
        tensor: &TensorDescription,
        kind: ElementKind,
        server_device: &mut Self,
    ) -> (outcome: Result<TensorId, FusionError>)
        ensures
            Self::moved(
                *old(self),
                *final(self),
                *old(server_device),
                *final(server_device),
                tensor@,
                kind,
                outcome,
            ),
    {
        let storage = match self.context.handles.storage_of(tensor.id) {
            Some(storage) => storage,
            None => {
                return Err(FusionError::MissingHandle(tensor.id));
            },
        };
        let ghost n = self.client.exchanges().len() as int;
        let bytes = match self.client.read(storage) {
            Ok(bytes) => bytes,
            Err(failure) => {
                assert(self.client.exchanges().subrange(0, n + 1) =~= self.client.exchanges());
                return Err(FusionError::Device(failure));
            },
        };
        let ghost read = self.client.exchanges();
        assert(read.subrange(0, n + 1) =~= read);
        let id = match server_device.receive(kind, &tensor.shape, &bytes) {
            Ok(id) => id,
            Err(failure) => {
                return Err(failure);
            },
        };
        match self.context.handles.remove_handle(tensor.id) {
            Some(moved) => {
                self.client.release(moved);
            },
            None => {},
        }
        proof {
            let record = self.client.exchanges();
            assert(record.drop_last() == read);
            assert(record.subrange(0, n + 1) =~= read);
            assert(record[n] == read[n]);
        }
        Ok(id)
    }

    /// Moves a tensor to another server: drains this server's stream, reads
    /// the tensor's bytes, stores them on the other server's device under a
    /// fresh identity there, and then drops the tensor here. A failure
    /// before the bytes are stored leaves the tensor where it was.
    pub fn change_server(
        &mut self,
        tensor: &TensorDescription,
        kind: ElementKind,
        server_device: &mut Self,
    ) -> (outcome: Result<TensorId, FusionError>)
        ensures
            Self::transferred(
                *old(self),
                *final(self),
                *old(server_device),
                *final(server_device),
                tensor@,
                kind,
                outcome,
            ),
    {
        let drain = self.drain_streams();
        let ghost mid = *self;
        let ghost drain_outcome = drain;
        match drain {
            Ok(_) => {},
            Err(failure) => {
                assert(Self::drained(*old(self), mid, drain_outcome));
                return Err(failure.cause);
            },
        }
        let outcome = self.hand_over(tensor, kind, server_device);
        assert(Self::drained(*old(self), mid, drain_outcome));
        outcome
    }

    /// Moves a tensor of floating-point elements to another server.
    pub fn change_server_float(&mut self, tensor: &TensorDescription, server_device: &mut Self) -> (outcome:
        Result<TensorId, FusionError>)
        ensures
            Self::transferred(
                *old(self),
                *final(self),
                *old(server_device),
                *final(server_device),
                tensor@,
                ElementKind::Float,
                outcome,
            ),
    {
        self.change_server(tensor, ElementKind::Float, server_device)
    }

    /// Moves a tensor of integer elements to another server.
    pub fn change_server_int(&mut self, tensor: &TensorDescription, server_device: &mut Self) -> (outcome:
        Result<TensorId, FusionError>)
        ensures
            Self::transferred(
                *old(self),
                *final(self),
                *old(server_device),
                *final(server_device),
                tensor@,
                ElementKind::Int,
                outcome,
            ),
    {
        self.change_server(tensor, ElementKind::Int, server_device)
    }

    /// Moves a tensor of boolean elements to another server.
    pub fn change_server_bool(&mut self, tensor: &TensorDescription, server_device: &mut Self) -> (outcome:
        Result<TensorId, FusionError>)
        ensures
            Self::transferred(
                *old(self),
                *final(self),
                *old(server_device),
                *final(server_device),
                tensor@,
                ElementKind::Bool,
                outcome,
            ),
    {
        self.change_server(tensor, ElementKind::Bool, server_device)
    }
}

/// The request that stores bytes of a kind and shape.
pub open spec fn upload_of(kind: ElementKind, shape: Seq<usize>, bytes: Seq<u8>) -> DeviceRequest {
    DeviceRequest::Upload { kind, shape, bytes }
}

/// What is said of a segment under sound kernels is said of it under any
/// weaker assumption.
pub proof fn lemma_segment_ran_weakens(
    ops: Seq<OperationView>,
    segment: Segment,
    device: DeviceId,
    sound: bool,
    weaker: bool,
    before: Snapshot,
    after: Snapshot,
    outcome: Result<SegmentExecution, FusionError>,
)
    requires
        segment_ran(ops, segment, device, sound, before, after, outcome),
        weaker ==> sound,
    ensures
        segment_ran(ops, segment, device, weaker, before, after, outcome),
{
    if segment.fused {
        let unit = choose|unit: ElementWise<ExecutionPhase>|
            {
                &&& #[trigger] fused_ran(
                    unit,
                    ops.subrange(segment.start as int, segment.end as int),
                    device,
                    before.handles,
                    after.handles,
                    before.record,
                    after.record,
                    before.decisions,
                    after.decisions,
                    as_fused(outcome),
                )
                &&& sound ==> unit.phase.compiled_from(unit.trace@)
            };
        assert(fused_ran(
            unit,
            ops.subrange(segment.start as int, segment.end as int),
            device,
            before.handles,
            after.handles,
            before.record,
            after.record,
            before.decisions,
            after.decisions,
            as_fused(outcome),
        ));
    }
}

/// Every segment of a contiguous split ends inside the queue.
proof fn lemma_segment_ends_in_queue(plan: Seq<Segment>, end: int, i: int)
    requires
        contiguous(plan, 0, end),
        0 <= i < plan.len(),
    ensures
        plan[i].end <= end,
    decreases plan.len() - i,
{
    if i + 1 < plan.len() {
        lemma_segment_ends_in_queue(plan, end, i + 1);
        assert(plan[i].end == plan[i + 1].start);
        assert(plan[i + 1].start < plan[i + 1].end);
    }
}

} // verus!
