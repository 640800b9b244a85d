//! Queued operation descriptions and the split of a queue into maximal
//! fusable runs.

use vstd::prelude::*;
use crate::handle::HandleContainer;
use crate::tensor::{same_shape, tensor_views, TensorDescription, TensorId, TensorView};

verus! {

/// What an operation computes.
#[derive(Clone, Copy, Debug, PartialEq, Eq, Structural, Hash)]
pub enum OperationKind {
    Add,
    Sub,
    Mul,
    Div,
    Neg,
    Exp,
    Relu,
    /// Folds a dimension away.
    Reduce,
    /// Reinterprets the extents.
    Reshape,
    /// Picks between operands depending on data.
    Conditional,
}

impl OperationKind {
    /// Pure per-element arithmetic: the only kinds that fuse.
    pub open spec fn spec_is_elementwise(self) -> bool {
        self is Add || self is Sub || self is Mul || self is Div || self is Neg || self is Exp
            || self is Relu
    }

    /// Number of operands the kind takes.
    pub open spec fn spec_arity(self) -> nat {
        match self {
            OperationKind::Add | OperationKind::Sub | OperationKind::Mul | OperationKind::Div => 2,
            OperationKind::Neg
            | OperationKind::Exp
            | OperationKind::Relu
            | OperationKind::Reduce
            | OperationKind::Reshape => 1,
            OperationKind::Conditional => 3,
        }
    }

    pub fn is_elementwise(&self) -> (elementwise: bool)
        ensures
            elementwise == self.spec_is_elementwise(),
    {
        match self {
            OperationKind::Add
            | OperationKind::Sub
            | OperationKind::Mul
            | OperationKind::Div
            | OperationKind::Neg
            | OperationKind::Exp
            | OperationKind::Relu => true,
            _ => false,
        }
    }

    pub fn arity(&self) -> (operands: usize)
        ensures
            operands == self.spec_arity(),
    {
        match self {
            OperationKind::Add | OperationKind::Sub | OperationKind::Mul | OperationKind::Div => 2,
            OperationKind::Neg
            | OperationKind::Exp
            | OperationKind::Relu
            | OperationKind::Reduce
            | OperationKind::Reshape => 1,
            OperationKind::Conditional => 3,
        }
    }
}

/// Immutable record of one queued operation.
#[derive(Debug)]
pub struct OperationDescription {
    pub kind: OperationKind,
    pub inputs: Vec<TensorDescription>,
    pub out: TensorDescription,
}

/// Mathematical value of an [`OperationDescription`].
pub struct OperationView {
    pub kind: OperationKind,
    pub inputs: Seq<TensorView>,
    pub out: TensorView,
}

impl View for OperationDescription {
    type V = OperationView;

    open spec fn view(&self) -> OperationView {
        OperationView { kind: self.kind, inputs: tensor_views(self.inputs@), out: self.out@ }
    }
}

/// Views of a sequence of operations, element by element.
pub open spec fn operation_views(ops: Seq<OperationDescription>) -> Seq<OperationView> {
    ops.map_values(|op: OperationDescription| op@)
}

/// Copies a list of descriptions.
pub fn clone_tensors(tensors: &Vec<TensorDescription>) -> (copy: Vec<TensorDescription>)
    ensures
        tensor_views(copy@) == tensor_views(tensors@),
{
    let mut copy: Vec<TensorDescription> = Vec::new();
    let mut i: usize = 0;
    while i < tensors.len()
        invariant
            i <= tensors@.len(),
            copy@.len() == i,
            forall|j: int| 0 <= j < i ==> copy@[j]@ == tensors@[j]@,
        decreases tensors@.len() - i,
    {
        copy.push(tensors[i].clone());
        i += 1;
    }
    assert(tensor_views(copy@) =~= tensor_views(tensors@));
    copy
}

/// Copies a list of operations.
pub fn clone_operations(ops: &Vec<OperationDescription>) -> (copy: Vec<OperationDescription>)
    ensures
        operation_views(copy@) == operation_views(ops@),
{
    let mut copy: Vec<OperationDescription> = Vec::new();
    let mut i: usize = 0;
    while i < ops.len()
        invariant
            i <= ops@.len(),
            copy@.len() == i,
            forall|j: int| 0 <= j < i ==> copy@[j]@ == ops@[j]@,
        decreases ops@.len() - i,
    {
        copy.push(ops[i].clone());
        i += 1;
    }
    assert(operation_views(copy@) =~= operation_views(ops@));
    copy
}

/// Copies the operations at positions `start..end`.
pub fn clone_range(ops: &Vec<OperationDescription>, start: usize, end: usize) -> (copy: Vec<
    OperationDescription,
>)
    requires
        start <= end <= ops@.len(),
    ensures
        operation_views(copy@) == operation_views(ops@).subrange(start as int, end as int),
{
    let mut copy: Vec<OperationDescription> = Vec::new();
    let mut i: usize = start;
    while i < end
        invariant
            start <= i <= end <= ops@.len(),
            copy@.len() == i - start,
            forall|j: int| 0 <= j < i - start ==> copy@[j]@ == ops@[start + j]@,
        decreases end - i,
    {
        copy.push(ops[i].clone());
        i += 1;
    }
    assert(operation_views(copy@) =~= operation_views(ops@).subrange(start as int, end as int));
    copy
}

impl Clone for OperationDescription {
    fn clone(&self) -> (copy: Self)
        ensures
            copy@ == self@,
    {
        OperationDescription {
            kind: self.kind,
            inputs: clone_tensors(&self.inputs),
            out: self.out.clone(),
        }
    }
}

impl OperationDescription {
    pub fn new(kind: OperationKind, inputs: Vec<TensorDescription>, out: TensorDescription) -> (op:
        Self)
        ensures
            op@ == (OperationView { kind, inputs: tensor_views(inputs@), out: out@ }),
    {
        OperationDescription { kind, inputs, out }
    }
}

/// Some operation before position `k` produces the tensor.
pub open spec fn produced_before(ops: Seq<OperationView>, k: int, id: TensorId) -> bool {
    exists|j: int| 0 <= j < k && j < ops.len() && (#[trigger] ops[j]).out.id == id
}

/// Operand `i` of the operation at `k` keeps the output's shape and is either
/// produced earlier in the queue or already owns storage.
pub open spec fn operand_fuses(
    ops: Seq<OperationView>,
    k: int,
    materialized: Set<TensorId>,
    i: int,
) -> bool {
    let operand = ops[k].inputs[i];
    &&& operand.shape == ops[k].out.shape
    &&& (materialized.contains(operand.id) || produced_before(ops, k, operand.id))
}

/// The operation at `k` can join a fused kernel.
pub open spec fn fusable_at(ops: Seq<OperationView>, k: int, materialized: Set<TensorId>) -> bool {
    &&& ops[k].kind.spec_is_elementwise()
    &&& ops[k].inputs.len() == ops[k].kind.spec_arity()
    &&& forall|i: int| 0 <= i < ops[k].inputs.len() ==> operand_fuses(ops, k, materialized, i)
}

/// First position at or after `start` whose operation does not fuse; the
/// length of the queue when every remaining operation fuses.
pub open spec fn run_end(ops: Seq<OperationView>, start: int, materialized: Set<TensorId>) -> int
    decreases ops.len() - start,
{
    if start < 0 || start >= ops.len() || !fusable_at(ops, start, materialized) {
        start
    } else {
        run_end(ops, start + 1, materialized)
    }
}

/// A contiguous piece of the queue: either a run of operations executed as one
/// fused kernel, or a single operation executed by itself.
#[derive(Clone, Copy, Debug, PartialEq, Eq, Structural)]
pub struct Segment {
    pub start: usize,
    pub end: usize,
    pub fused: bool,
}

/// The segment that covers positions `start..end`.
pub open spec fn span(start: int, end: int, fused: bool) -> Segment {
    Segment {
        start: #[verifier::truncate] (start as usize),
        end: #[verifier::truncate] (end as usize),
        fused,
    }
}

/// The split of `ops[start..]` into maximal fusable runs and single
/// operations that do not fuse, in queue order.
pub open spec fn segments_from(
    ops: Seq<OperationView>,
    start: int,
    materialized: Set<TensorId>,
) -> Seq<Segment>
    decreases ops.len() - start,
{
    if start < 0 || start >= ops.len() {
        Seq::empty()
    } else {
        let end = run_end(ops, start, materialized);
        if start < end <= ops.len() {
            seq![span(start, end, true)] + segments_from(ops, end, materialized)
        } else {
            seq![span(start, start + 1, false)] + segments_from(ops, start + 1, materialized)
        }
    }
}

/// A run never ends before it starts, nor beyond the queue.
pub proof fn lemma_run_end_bounds(ops: Seq<OperationView>, start: int, materialized: Set<TensorId>)
    requires
        0 <= start <= ops.len(),
    ensures
        start <= run_end(ops, start, materialized) <= ops.len(),
    decreases ops.len() - start,
{
    if start < ops.len() && fusable_at(ops, start, materialized) {
        lemma_run_end_bounds(ops, start + 1, materialized);
    }
}

/// Every operation inside a run fuses, and the run stops only at the end of
/// the queue or at an operation that does not fuse.
pub proof fn lemma_run_is_maximal(ops: Seq<OperationView>, start: int, materialized: Set<TensorId>)
    requires
        0 <= start <= ops.len(),
    ensures
        forall|k: int|
            start <= k < run_end(ops, start, materialized) ==> fusable_at(ops, k, materialized),
        run_end(ops, start, materialized) < ops.len() ==> !fusable_at(
            ops,
            run_end(ops, start, materialized),
            materialized,
        ),
    decreases ops.len() - start,
{
    if start < ops.len() && fusable_at(ops, start, materialized) {
        lemma_run_is_maximal(ops, start + 1, materialized);
    }
}

/// The segments of a split lie in the queue one after the other.
pub open spec fn contiguous(plan: Seq<Segment>, start: int, end: int) -> bool {
    &&& forall|i: int| 0 <= i < plan.len() ==> (#[trigger] plan[i]).start < plan[i].end
    &&& forall|i: int| 0 <= i < plan.len() - 1 ==> (#[trigger] plan[i]).end == plan[i + 1].start
    &&& plan.len() == 0 ==> start >= end
    &&& plan.len() > 0 ==> plan[0].start == start && plan[plan.len() - 1].end == end
}

/// A fused segment is a whole run; a single operation stands alone because
/// it does not fuse.
pub open spec fn segment_is_maximal(
    ops: Seq<OperationView>,
    materialized: Set<TensorId>,
    segment: Segment,
) -> bool {
    if segment.fused {
        &&& forall|k: int| segment.start <= k < segment.end ==> fusable_at(ops, k, materialized)
        &&& segment.end < ops.len() ==> !fusable_at(ops, segment.end as int, materialized)
    } else {
        &&& segment.end == segment.start + 1
        &&& !fusable_at(ops, segment.start as int, materialized)
    }
}

/// The split covers the queue from `start` to its end without gap or
/// overlap, every fused segment is a maximal fusable run, and no two fused
/// segments touch.
pub proof fn lemma_segments_cover(
    ops: Seq<OperationView>,
    start: int,
    materialized: Set<TensorId>,
)
    requires
        0 <= start <= ops.len() <= usize::MAX,
    ensures
        contiguous(segments_from(ops, start, materialized), start, ops.len() as int),
        forall|i: int|
            0 <= i < segments_from(ops, start, materialized).len() ==> segment_is_maximal(
                ops,
                materialized,
                #[trigger] segments_from(ops, start, materialized)[i],
            ),
        forall|i: int|
            0 <= i < segments_from(ops, start, materialized).len() - 1 ==> !((
            #[trigger] segments_from(ops, start, materialized)[i]).fused && segments_from(
                ops,
                start,
                materialized,
            )[i + 1].fused),
    decreases ops.len() - start,
{
    let plan = segments_from(ops, start, materialized);
    if start < ops.len() {
        let end = run_end(ops, start, materialized);
        lemma_run_end_bounds(ops, start, materialized);
        lemma_run_is_maximal(ops, start, materialized);
        let next = if start < end {
            end
        } else {
            start + 1
        };
        let head = span(start, next, start < end);
        let rest = segments_from(ops, next, materialized);
        lemma_segments_cover(ops, next, materialized);
        assert(plan == seq![head] + rest);
        assert(plan[0] == head);
        assert forall|i: int| 1 <= i < plan.len() implies plan[i] == rest[i - 1] by {}
        assert forall|i: int| 0 <= i < plan.len() implies (#[trigger] plan[i]).start
            < plan[i].end by {
            if i > 0 {
                assert(plan[i] == rest[i - 1]);
            }
        }
        assert forall|i: int| 0 <= i < plan.len() - 1 implies (#[trigger] plan[i]).end == plan[i
            + 1].start by {
            assert(plan[i + 1] == rest[i]);
            if i > 0 {
                assert(plan[i] == rest[i - 1]);
            }
        }
        assert forall|i: int| 0 <= i < plan.len() implies segment_is_maximal(
            ops,
            materialized,
            #[trigger] plan[i],
        ) by {
            if i > 0 {
                assert(plan[i] == rest[i - 1]);
            }
        }
        assert forall|i: int| 0 <= i < plan.len() - 1 implies !((#[trigger] plan[i]).fused
            && plan[i + 1].fused) by {
            assert(plan[i + 1] == rest[i]);
            if i > 0 {
                assert(plan[i] == rest[i - 1]);
            } else if head.fused && end < ops.len() {
                assert(!fusable_at(ops, end, materialized));
                assert(rest[0].start == end);
                assert(segment_is_maximal(ops, materialized, rest[0]));
            }
        }
        if rest.len() > 0 {
            assert(plan[plan.len() - 1] == rest[rest.len() - 1]);
        }
    }
}

/// Ordered queue of pending operations for one device.
pub struct Stream {
    queue: Vec<OperationDescription>,
}

impl View for Stream {
    type V = Seq<OperationView>;

    closed spec fn view(&self) -> Seq<OperationView> {
        operation_views(self.queue@)
    }
}

impl Stream {
    pub fn new() -> (stream: Self)
        ensures
            stream@ == Seq::<OperationView>::empty(),
    {
        let stream = Stream { queue: Vec::new() };
        assert(stream@ =~= Seq::<OperationView>::empty());
        stream
    }

    /// Appends an operation to the queue.
    pub fn register(&mut self, op: OperationDescription)
        ensures
            final(self)@ == old(self)@.push(op@),
    {
        self.queue.push(op);
        assert(self@ =~= old(self)@.push(op@));
    }

    pub fn len(&self) -> (pending: usize)
        ensures
            pending == self@.len(),
    {
        self.queue.len()
    }

    pub fn is_empty(&self) -> (empty: bool)
        ensures
            empty == (self@.len() == 0),
    {
        self.queue.len() == 0
    }

    /// Empties the queue and hands its operations out in queue order.
    pub fn take_all(&mut self) -> (ops: Vec<OperationDescription>)
        ensures
            operation_views(ops@) == old(self)@,
            final(self)@ == Seq::<OperationView>::empty(),
    {
        let mut ops: Vec<OperationDescription> = Vec::new();
        ops.append(&mut self.queue);
        assert(ops@ =~= old(self).queue@);
        assert(self@ =~= Seq::<OperationView>::empty());
        ops
    }

    /// Puts operations back at the front of the queue, keeping their order.
    pub fn restore(&mut self, ops: Vec<OperationDescription>)
        ensures
            final(self)@ == operation_views(ops@) + old(self)@,
    {
        let mut front = ops;
        front.append(&mut self.queue);
        self.queue = front;
        assert(self@ =~= operation_views(ops@) + old(self)@);
    }

    /// Splits the queue into maximal fusable runs and single operations.
    pub fn segments(&self, handles: &HandleContainer) -> (plan: Vec<Segment>)
        ensures
            plan@ == segments_from(self@, 0, handles@.dom()),
    {
        plan_segments(&self.queue, handles)
    }
}

/// Whether an operation before position `k` produces the tensor.
pub fn is_produced_before(ops: &Vec<OperationDescription>, k: usize, id: TensorId) -> (produced:
    bool)
    requires
        k <= ops@.len(),
    ensures
        produced == produced_before(operation_views(ops@), k as int, id),
{
    let ghost views = operation_views(ops@);
    let mut j: usize = 0;
    while j < k
        invariant
            j <= k <= ops@.len(),
            views == operation_views(ops@),
            forall|m: int| 0 <= m < j ==> (#[trigger] views[m]).out.id != id,
        decreases k - j,
    {
        if ops[j].out.id == id {
            assert(views[j as int].out.id == id);
            return true;
        }
        j += 1;
    }
    false
}

/// Whether the operation at `k` can join a fused kernel, given the handles
/// that currently own storage.
pub fn is_fusable_at(ops: &Vec<OperationDescription>, k: usize, handles: &HandleContainer) -> (fusable:
    bool)
    requires
        k < ops@.len(),
    ensures
        fusable == fusable_at(operation_views(ops@), k as int, handles@.dom()),
{
    let ghost views = operation_views(ops@);
    let op = &ops[k];
    assert(views[k as int] == op@);
    if !op.kind.is_elementwise() || op.inputs.len() != op.kind.arity() {
        return false;
    }
    let mut i: usize = 0;
    while i < op.inputs.len()
        invariant
            k < ops@.len(),
            views == operation_views(ops@),
            *op == ops@[k as int],
            views[k as int] == op@,
            i <= op.inputs@.len(),
            forall|m: int| 0 <= m < i ==> operand_fuses(views, k as int, handles@.dom(), m),
        decreases op.inputs@.len() - i,
    {
        let operand = &op.inputs[i];
        assert(views[k as int].inputs[i as int] == operand@);
        let available = handles.is_bound(operand.id) || is_produced_before(ops, k, operand.id);
        if !same_shape(&operand.shape, &op.out.shape) || !available {
            assert(!operand_fuses(views, k as int, handles@.dom(), i as int));
            return false;
        }
        i += 1;
    }
    true
}

/// End of the fusable run that starts at `start`.
pub fn find_run_end(ops: &Vec<OperationDescription>, start: usize, handles: &HandleContainer) -> (end:
    usize)
    requires
        start <= ops@.len(),
    ensures
        end == run_end(operation_views(ops@), start as int, handles@.dom()),
        start <= end <= ops@.len(),
{
    let ghost views = operation_views(ops@);
    let mut end: usize = start;
    while end < ops.len() && is_fusable_at(ops, end, handles)
        invariant
            start <= end <= ops@.len(),
            views == operation_views(ops@),
            run_end(views, start as int, handles@.dom()) == run_end(
                views,
                end as int,
                handles@.dom(),
            ),
        decreases ops@.len() - end,
    {
        end += 1;
    }
    end
}

/// Splits a list of operations into maximal fusable runs and single
/// operations, in order.
pub fn plan_segments(ops: &Vec<OperationDescription>, handles: &HandleContainer) -> (plan: Vec<
    Segment,
>)
    ensures
        plan@ == segments_from(operation_views(ops@), 0, handles@.dom()),
{
    let ghost views = operation_views(ops@);
    let mut plan: Vec<Segment> = Vec::new();
    let mut start: usize = 0;
    while start < ops.len()
        invariant
            start <= ops@.len(),
            views == operation_views(ops@),
            segments_from(views, 0, handles@.dom()) == plan@ + segments_from(
                views,
                start as int,
                handles@.dom(),
            ),
        decreases ops@.len() - start,
    {
        let end = find_run_end(ops, start, handles);
        assert(span(start as int, end as int, true) == (Segment { start, end, fused: true }));
        assert(span(start as int, start + 1, false) == (Segment {
            start,
            end: (start + 1) as usize,
            fused: false,
        }));
        let ghost rest = segments_from(views, start as int, handles@.dom());
        let ghost before = plan@;
        if end == start {
            let segment = Segment { start, end: start + 1, fused: false };
            plan.push(segment);
            start = start + 1;
            assert(before + rest =~= plan@ + segments_from(views, start as int, handles@.dom()));
        } else {
            let segment = Segment { start, end, fused: true };
            plan.push(segment);
            start = end;
            assert(before + rest =~= plan@ + segments_from(views, start as int, handles@.dom()));
        }
    }
    assert(plan@ + segments_from(views, start as int, handles@.dom()) =~= plan@);
    plan
}

} // verus!
