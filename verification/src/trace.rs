//! Traces: the record of one fusable run, with the tensors that cross its
//! boundary.

use vstd::prelude::*;
use crate::kernel::CompilingInfo;
use crate::stream::{
    clone_operations, clone_tensors, is_produced_before, operation_views, produced_before,
    OperationDescription, OperationKind, OperationView,
};
use crate::tensor::{tensor_views, TensorDescription, TensorId, TensorStatus, TensorView};

verus! {

/// Some description in the list carries the identity.
pub open spec fn has_id(tensors: Seq<TensorView>, id: TensorId) -> bool {
    exists|i: int| 0 <= i < tensors.len() && (#[trigger] tensors[i]).id == id
}

/// Boundary inputs known after the first `n` operands of operation `k`,
/// given those known before the operation: an operand joins them unless an
/// earlier operation of the run produces it or it is already listed.
pub open spec fn inputs_through_operand(
    ops: Seq<OperationView>,
    k: int,
    n: int,
    known: Seq<TensorView>,
) -> Seq<TensorView>
    decreases n,
{
    if n <= 0 {
        known
    } else {
        let found = inputs_through_operand(ops, k, n - 1, known);
        let operand = ops[k].inputs[n - 1];
        if produced_before(ops, k, operand.id) || has_id(found, operand.id) {
            found
        } else {
            found.push(operand)
        }
    }
}

/// Boundary inputs of the first `k` operations, in order of first use.
pub open spec fn inputs_through(ops: Seq<OperationView>, k: int) -> Seq<TensorView>
    decreases k,
{
    if k <= 0 {
        Seq::empty()
    } else {
        inputs_through_operand(ops, k - 1, ops[k - 1].inputs.len() as int, inputs_through(ops, k - 1))
    }
}

/// The tensors a run reads but does not produce: they must own storage
/// before the run starts.
pub open spec fn boundary_inputs(ops: Seq<OperationView>) -> Seq<TensorView> {
    inputs_through(ops, ops.len() as int)
}

/// The operation uses the tensor for the last time.
pub open spec fn consumes(op: OperationView, id: TensorId) -> bool {
    exists|i: int|
        0 <= i < op.inputs.len() && (#[trigger] op.inputs[i]).id == id && op.inputs[i].status
            == TensorStatus::ReadWrite
}

/// A later operation of the run uses the result of operation `k` for the
/// last time, so the result never leaves the run.
pub open spec fn consumed_after(ops: Seq<OperationView>, k: int) -> bool {
    exists|j: int| k < j < ops.len() && consumes(#[trigger] ops[j], ops[k].out.id)
}

/// Results of the first `k` operations that outlive the run.
pub open spec fn outputs_through(ops: Seq<OperationView>, k: int) -> Seq<TensorView>
    decreases k,
{
    if k <= 0 {
        Seq::empty()
    } else {
        let found = outputs_through(ops, k - 1);
        if consumed_after(ops, k - 1) {
            found
        } else {
            found.push(ops[k - 1].out)
        }
    }
}

/// The tensors a run produces for later use, in order of production.
pub open spec fn boundary_outputs(ops: Seq<OperationView>) -> Seq<TensorView> {
    outputs_through(ops, ops.len() as int)
}

/// Operand `i` of operation `k` is read from outside the run: no earlier
/// operation of the run produces it.
pub open spec fn read_from_outside(ops: Seq<OperationView>, k: int, i: int) -> bool {
    &&& 0 <= k < ops.len()
    &&& 0 <= i < ops[k].inputs.len()
    &&& !produced_before(ops, k, ops[k].inputs[i].id)
}

/// The description is that of some operand read from outside the run.
pub open spec fn is_outside_read(ops: Seq<OperationView>, tensor: TensorView) -> bool {
    exists|k: int, i: int| #[trigger] read_from_outside(ops, k, i) && ops[k].inputs[i] == tensor
}

/// The description is the result of an operation that no later operation of
/// the run uses for the last time.
pub open spec fn is_surviving_result(ops: Seq<OperationView>, tensor: TensorView) -> bool {
    exists|k: int| 0 <= k < ops.len() && !consumed_after(ops, k) && (#[trigger] ops[k]).out == tensor
}

/// Operand `i` of operation `j` comes before operand `n` of operation `k`.
spec fn visited(j: int, i: int, k: int, n: int) -> bool {
    j < k || (j == k && i < n)
}

/// The description is that of an outside read among the operands visited.
spec fn is_visited_read(ops: Seq<OperationView>, tensor: TensorView, k: int, n: int) -> bool {
    exists|j: int, i: int|
        visited(j, i, k, n) && #[trigger] read_from_outside(ops, j, i) && ops[j].inputs[i]
            == tensor
}

/// What holds of the inputs found once the operands before operand `n` of
/// operation `k` were visited.
spec fn inputs_found(ops: Seq<OperationView>, found: Seq<TensorView>, k: int, n: int) -> bool {
    &&& forall|a: int, b: int|
        0 <= a < b < found.len() ==> (#[trigger] found[a]).id != (#[trigger] found[b]).id
    &&& forall|a: int| 0 <= a < found.len() ==> is_visited_read(ops, #[trigger] found[a], k, n)
    &&& forall|j: int, i: int|
        visited(j, i, k, n) && #[trigger] read_from_outside(ops, j, i) ==> has_id(
            found,
            ops[j].inputs[i].id,
        )
}

proof fn lemma_inputs_through_operand(
    ops: Seq<OperationView>,
    k: int,
    n: int,
    known: Seq<TensorView>,
)
    requires
        0 <= k < ops.len(),
        0 <= n <= ops[k].inputs.len(),
        inputs_found(ops, known, k, 0),
    ensures
        inputs_found(ops, inputs_through_operand(ops, k, n, known), k, n),
    decreases n,
{
    if n > 0 {
        lemma_inputs_through_operand(ops, k, n - 1, known);
        let found = inputs_through_operand(ops, k, n - 1, known);
        let next = inputs_through_operand(ops, k, n, known);
        let operand = ops[k].inputs[n - 1];
        let joins = !(produced_before(ops, k, operand.id) || has_id(found, operand.id));
        assert(next == if joins {
            found.push(operand)
        } else {
            found
        });
        assert forall|a: int| 0 <= a < next.len() implies is_visited_read(
            ops,
            #[trigger] next[a],
            k,
            n,
        ) by {
            if a < found.len() {
                assert(next[a] == found[a]);
                assert(is_visited_read(ops, found[a], k, n - 1));
                let (j, i) = choose|j: int, i: int|
                    visited(j, i, k, n - 1) && #[trigger] read_from_outside(ops, j, i)
                        && ops[j].inputs[i] == found[a];
                assert(visited(j, i, k, n) && read_from_outside(ops, j, i));
            } else {
                assert(visited(k, n - 1, k, n) && read_from_outside(ops, k, n - 1));
            }
        }
        assert forall|a: int, b: int| 0 <= a < b < next.len() implies (#[trigger] next[a]).id != (
        #[trigger] next[b]).id by {
            assert(next[a] == found[a]);
            if b < found.len() {
                assert(next[b] == found[b]);
            }
        }
        assert forall|j: int, i: int|
            visited(j, i, k, n) && #[trigger] read_from_outside(ops, j, i) implies has_id(
            next,
            ops[j].inputs[i].id,
        ) by {
            if visited(j, i, k, n - 1) {
                let w = choose|w: int|
                    0 <= w < found.len() && (#[trigger] found[w]).id == ops[j].inputs[i].id;
                assert(next[w] == found[w]);
            } else if joins {
                assert(next[found.len() as int] == operand);
            } else {
                let w = choose|w: int|
                    0 <= w < found.len() && (#[trigger] found[w]).id == operand.id;
                assert(next[w] == found[w]);
            }
        }
    }
}

proof fn lemma_inputs_through(ops: Seq<OperationView>, k: int)
    requires
        0 <= k <= ops.len(),
    ensures
        inputs_found(ops, inputs_through(ops, k), k, 0),
    decreases k,
{
    if k > 0 {
        lemma_inputs_through(ops, k - 1);
        let count = ops[k - 1].inputs.len() as int;
        lemma_inputs_through_operand(ops, k - 1, count, inputs_through(ops, k - 1));
        let found = inputs_through(ops, k);
        assert forall|a: int| 0 <= a < found.len() implies is_visited_read(
            ops,
            #[trigger] found[a],
            k,
            0,
        ) by {
            assert(is_visited_read(ops, found[a], k - 1, count));
            let (j, i) = choose|j: int, i: int|
                visited(j, i, k - 1, count) && #[trigger] read_from_outside(ops, j, i)
                    && ops[j].inputs[i] == found[a];
            assert(visited(j, i, k, 0) && read_from_outside(ops, j, i));
        }
        assert forall|j: int, i: int|
            visited(j, i, k, 0) && #[trigger] read_from_outside(ops, j, i) implies has_id(
            found,
            ops[j].inputs[i].id,
        ) by {
            assert(visited(j, i, k - 1, count));
        }
    }
}

/// The boundary inputs of a run are exactly the tensors it reads from
/// outside, each listed once: no two inputs share an identity, every input
/// is the description of an operand that no earlier operation produces, and
/// every such operand has its identity among the inputs.
pub proof fn lemma_boundary_inputs(ops: Seq<OperationView>)
    ensures
        forall|a: int, b: int|
            0 <= a < b < boundary_inputs(ops).len() ==> (#[trigger] boundary_inputs(ops)[a]).id
                != (#[trigger] boundary_inputs(ops)[b]).id,
        forall|a: int|
            0 <= a < boundary_inputs(ops).len() ==> is_outside_read(
                ops,
                #[trigger] boundary_inputs(ops)[a],
            ),
        forall|k: int, i: int| #[trigger]
            read_from_outside(ops, k, i) ==> has_id(boundary_inputs(ops), ops[k].inputs[i].id),
{
    let inputs = boundary_inputs(ops);
    let count = ops.len() as int;
    lemma_inputs_through(ops, count);
    assert forall|a: int| 0 <= a < inputs.len() implies is_outside_read(
        ops,
        #[trigger] inputs[a],
    ) by {
        assert(is_visited_read(ops, inputs[a], count, 0));
        let (j, i) = choose|j: int, i: int|
            visited(j, i, count, 0) && #[trigger] read_from_outside(ops, j, i)
                && ops[j].inputs[i] == inputs[a];
        assert(read_from_outside(ops, j, i) && ops[j].inputs[i] == inputs[a]);
    }
    assert forall|k: int, i: int| #[trigger] read_from_outside(ops, k, i) implies has_id(
        inputs,
        ops[k].inputs[i].id,
    ) by {
        assert(visited(k, i, count, 0));
    }
}

/// What holds of the outputs found once the first `k` operations were
/// visited.
spec fn outputs_found(ops: Seq<OperationView>, found: Seq<TensorView>, k: int) -> bool {
    &&& forall|a: int| 0 <= a < found.len() ==> is_surviving_result(ops, #[trigger] found[a])
    &&& forall|j: int|
        0 <= j < k && !consumed_after(ops, j) ==> found.contains((#[trigger] ops[j]).out)
}

proof fn lemma_outputs_through(ops: Seq<OperationView>, k: int)
    requires
        0 <= k <= ops.len(),
    ensures
        outputs_found(ops, outputs_through(ops, k), k),
    decreases k,
{
    if k > 0 {
        lemma_outputs_through(ops, k - 1);
        let found = outputs_through(ops, k - 1);
        let next = outputs_through(ops, k);
        assert forall|a: int| 0 <= a < next.len() implies is_surviving_result(
            ops,
            #[trigger] next[a],
        ) by {
            if a < found.len() {
                assert(next[a] == found[a]);
            } else {
                assert(next[a] == ops[k - 1].out);
            }
        }
        assert forall|j: int| 0 <= j < k && !consumed_after(ops, j) implies next.contains(
            (#[trigger] ops[j]).out,
        ) by {
            if j < k - 1 {
                let w = choose|w: int| 0 <= w < found.len() && found[w] == ops[j].out;
                assert(next[w] == ops[j].out);
            } else {
                assert(next[found.len() as int] == ops[j].out);
            }
        }
    }
}

/// The boundary outputs of a run are exactly the results that survive it:
/// every output is the result of an operation that no later operation uses
/// for the last time, and every such result is an output. The result of the
/// last operation always survives, so a run with operations has an output.
pub proof fn lemma_boundary_outputs(ops: Seq<OperationView>)
    ensures
        forall|a: int|
            0 <= a < boundary_outputs(ops).len() ==> is_surviving_result(
                ops,
                #[trigger] boundary_outputs(ops)[a],
            ),
        forall|k: int|
            0 <= k < ops.len() && !consumed_after(ops, k) ==> boundary_outputs(ops).contains(
                (#[trigger] ops[k]).out,
            ),
        ops.len() > 0 ==> boundary_outputs(ops).len() > 0,
{
    lemma_outputs_through(ops, ops.len() as int);
    if ops.len() > 0 {
        let last = ops.len() - 1;
        assert(!consumed_after(ops, last));
        assert(boundary_outputs(ops).contains(ops[last].out));
    }
}

/// One entry of a structural signature: what is computed, on how many
/// operands.
#[derive(Clone, Copy, Debug, PartialEq, Eq, Structural, Hash)]
pub struct OperationSignature {
    pub kind: OperationKind,
    pub arity: usize,
}

/// Signature entry of one operation.
pub open spec fn signature_entry(op: OperationView) -> OperationSignature {
    OperationSignature { kind: op.kind, arity: #[verifier::truncate] (op.inputs.len() as usize) }
}

/// Structural signature of a run: kinds and arities in order. Shapes and
/// identities play no part in it.
pub open spec fn signature_of(ops: Seq<OperationView>) -> Seq<OperationSignature> {
    ops.map_values(|op: OperationView| signature_entry(op))
}

/// Mathematical value of a [`Trace`].
pub struct TraceView {
    pub ops: Seq<OperationView>,
    pub inputs: Seq<TensorView>,
    pub outputs: Seq<TensorView>,
}

/// A recorded run of fusable operations with its boundary.
#[derive(Debug)]
pub struct Trace {
    ops: Vec<OperationDescription>,
    inputs: Vec<TensorDescription>,
    outputs: Vec<TensorDescription>,
}

impl View for Trace {
    type V = TraceView;

    closed spec fn view(&self) -> TraceView {
        TraceView {
            ops: operation_views(self.ops@),
            inputs: tensor_views(self.inputs@),
            outputs: tensor_views(self.outputs@),
        }
    }
}

impl Clone for Trace {
    fn clone(&self) -> (copy: Self)
        ensures
            copy@ == self@,
    {
        Trace {
            ops: clone_operations(&self.ops),
            inputs: clone_tensors(&self.inputs),
            outputs: clone_tensors(&self.outputs),
        }
    }
}

/// Whether some description in the list carries the identity.
pub fn contains_id(tensors: &Vec<TensorDescription>, id: TensorId) -> (found: bool)
    ensures
        found == has_id(tensor_views(tensors@), id),
{
    let ghost views = tensor_views(tensors@);
    let mut i: usize = 0;
    while i < tensors.len()
        invariant
            i <= tensors@.len(),
            views == tensor_views(tensors@),
            forall|m: int| 0 <= m < i ==> (#[trigger] views[m]).id != id,
        decreases tensors@.len() - i,
    {
        if tensors[i].id == id {
            assert(views[i as int].id == id);
            return true;
        }
        i += 1;
    }
    false
}

/// Whether the operation uses the tensor for the last time.
pub fn is_consumed_by(op: &OperationDescription, id: TensorId) -> (consumed: bool)
    ensures
        consumed == consumes(op@, id),
{
    let mut i: usize = 0;
    while i < op.inputs.len()
        invariant
            i <= op.inputs@.len(),
            forall|m: int|
                0 <= m < i ==> !((#[trigger] op@.inputs[m]).id == id && op@.inputs[m].status
                    == TensorStatus::ReadWrite),
        decreases op.inputs@.len() - i,
    {
        let operand = &op.inputs[i];
        assert(op@.inputs[i as int] == operand@);
        if operand.id == id && operand.status == TensorStatus::ReadWrite {
            return true;
        }
        i += 1;
    }
    false
}

/// Whether a later operation uses the result of operation `k` for the last
/// time.
pub fn is_consumed_after(ops: &Vec<OperationDescription>, k: usize) -> (consumed: bool)
    requires
        k < ops@.len(),
    ensures
        consumed == consumed_after(operation_views(ops@), k as int),
{
    let ghost views = operation_views(ops@);
    let id = ops[k].out.id;
    assert(views[k as int].out.id == id);
    let count = ops.len();
    let mut j: usize = k + 1;
    while j < count
        invariant
            k < j <= ops@.len(),
            count == ops@.len(),
            views == operation_views(ops@),
            views[k as int].out.id == id,
            forall|m: int| k < m < j ==> !consumes(#[trigger] views[m], id),
        decreases ops@.len() - j,
    {
        assert(views[j as int] == ops@[j as int]@);
        if is_consumed_by(&ops[j], id) {
            return true;
        }
        j += 1;
    }
    false
}

impl Trace {
    /// A trace with the given operations and boundary, taken as they are.
    pub fn new(
        ops: Vec<OperationDescription>,
        inputs: Vec<TensorDescription>,
        outputs: Vec<TensorDescription>,
    ) -> (trace: Self)
        ensures
            trace@ == (TraceView {
                ops: operation_views(ops@),
                inputs: tensor_views(inputs@),
                outputs: tensor_views(outputs@),
            }),
    {
        Trace { ops, inputs, outputs }
    }

    /// Records a run of operations and works out its boundary.
    pub fn record(ops: Vec<OperationDescription>) -> (trace: Self)
        ensures
            trace@.ops == operation_views(ops@),
            trace@.inputs == boundary_inputs(operation_views(ops@)),
            trace@.outputs == boundary_outputs(operation_views(ops@)),
    {
        let ghost views = operation_views(ops@);
        let mut inputs: Vec<TensorDescription> = Vec::new();
        let mut outputs: Vec<TensorDescription> = Vec::new();
        let mut k: usize = 0;
        assert(tensor_views(inputs@) =~= inputs_through(views, 0));
        assert(tensor_views(outputs@) =~= outputs_through(views, 0));
        while k < ops.len()
            invariant
                k <= ops@.len(),
                views == operation_views(ops@),
                tensor_views(inputs@) == inputs_through(views, k as int),
                tensor_views(outputs@) == outputs_through(views, k as int),
            decreases ops@.len() - k,
        {
            let op = &ops[k];
            assert(views[k as int] == op@);
            let mut n: usize = 0;
            while n < op.inputs.len()
                invariant
                    k < ops@.len(),
                    views == operation_views(ops@),
                    *op == ops@[k as int],
                    views[k as int] == op@,
                    n <= op.inputs@.len(),
                    tensor_views(inputs@) == inputs_through_operand(
                        views,
                        k as int,
                        n as int,
                        inputs_through(views, k as int),
                    ),
                decreases op.inputs@.len() - n,
            {
                let operand = &op.inputs[n];
                assert(views[k as int].inputs[n as int] == operand@);
                let ghost before = tensor_views(inputs@);
                if !is_produced_before(&ops, k, operand.id) && !contains_id(&inputs, operand.id) {
                    inputs.push(operand.clone());
                    assert(tensor_views(inputs@) =~= before.push(operand@));
                }
                n += 1;
            }
            let ghost before = tensor_views(outputs@);
            if !is_consumed_after(&ops, k) {
                outputs.push(op.out.clone());
                assert(tensor_views(outputs@) =~= before.push(op@.out));
            }
            k += 1;
        }
        Trace { ops, inputs, outputs }
    }

    /// The recorded operations, in order.
    pub fn operations(&self) -> (ops: &Vec<OperationDescription>)
        ensures
            operation_views(ops@) == self@.ops,
    {
        &self.ops
    }

    /// The tensors that must own storage before the run.
    pub fn inputs(&self) -> (inputs: &Vec<TensorDescription>)
        ensures
            tensor_views(inputs@) == self@.inputs,
    {
        &self.inputs
    }

    /// The tensors the run leaves behind.
    pub fn outputs(&self) -> (outputs: &Vec<TensorDescription>)
        ensures
            tensor_views(outputs@) == self@.outputs,
    {
        &self.outputs
    }

    /// Number of recorded operations.
    pub fn len(&self) -> (count: usize)
        ensures
            count == self@.ops.len(),
    {
        self.ops.len()
    }

    /// What a kernel for this trace is compiled from.
    pub fn compiling(&self) -> (info: CompilingInfo)
        ensures
            info@ == signature_of(self@.ops),
    {
        CompilingInfo { signature: self.signature() }
    }

    /// The structural signature a compiled kernel is keyed by.
    pub fn signature(&self) -> (signature: Vec<OperationSignature>)
        ensures
            signature@ == signature_of(self@.ops),
    {
        let ghost views = operation_views(self.ops@);
        let mut signature: Vec<OperationSignature> = Vec::new();
        let mut k: usize = 0;
        while k < self.ops.len()
            invariant
                k <= self.ops@.len(),
                views == operation_views(self.ops@),
                signature@.len() == k,
                forall|m: int| 0 <= m < k ==> signature@[m] == signature_entry(views[m]),
            decreases self.ops@.len() - k,
        {
            let op = &self.ops[k];
            assert(views[k as int] == op@);
            signature.push(OperationSignature { kind: op.kind, arity: op.inputs.len() });
            k += 1;
        }
        assert(signature@ =~= signature_of(views));
        signature
    }
}

} // verus!
