use std::collections::HashMap;
use std::sync::{Arc, Mutex};

use fusion_core::client::{
    lock_order, settle, transfer, FusionTensor, LockKey, LockOrder, MutexFusionClient,
};
use fusion_core::context::Context;
use fusion_core::device::{
    ComputeClient, ComputeDevice, DeviceError, DeviceId, ElementKind, Handle,
};
use fusion_core::error::FusionError;
use fusion_core::handle::HandleContainer;
use fusion_core::kernel::{ElementWiseKernelFactory, LaunchConfiguration};
use fusion_core::optimization::{CompilationPhase, ElementWise, ElementWiseState, CANDIDATES};
use fusion_core::server::{AutotuneRegistry, DrainError, FusionServer, SegmentExecution};
use fusion_core::stream::{OperationDescription, OperationKind, Segment};
use fusion_core::tensor::{TensorDescription, TensorId, TensorStatus};
use fusion_core::trace::{OperationSignature, Trace};
use fusion_core::tune::{AutotuneCache, AutotuneKey};

#[derive(Clone, Debug, PartialEq)]
enum Call {
    Launch { kernel: u64, inputs: Vec<u64> },
    Benchmark { kernel: u64, inputs: Vec<u64> },
    Operation { kind: OperationKind, inputs: Vec<u64> },
    Read(u64),
    Upload(usize),
    Release(u64),
}

#[derive(Default)]
struct Bench {
    calls: Vec<Call>,
    memory: HashMap<u64, Vec<f32>>,
    next_storage: u64,
    latencies: Vec<Result<u64, u32>>,
    fail_launch: Option<u32>,
    short_launch: bool,
}

#[derive(Clone)]
struct TestDevice {
    id: DeviceId,
    bench: Arc<Mutex<Bench>>,
}

impl TestDevice {
    fn new(index: u32) -> (Self, Arc<Mutex<Bench>>) {
        let bench = Arc::new(Mutex::new(Bench::default()));
        (TestDevice { id: DeviceId::new(0, index), bench: bench.clone() }, bench)
    }
}

fn apply(kind: OperationKind, inputs: &[Vec<f32>]) -> Vec<f32> {
    match kind {
        OperationKind::Add => inputs[0].iter().zip(&inputs[1]).map(|(a, b)| a + b).collect(),
        OperationKind::Sub => inputs[0].iter().zip(&inputs[1]).map(|(a, b)| a - b).collect(),
        OperationKind::Mul => inputs[0].iter().zip(&inputs[1]).map(|(a, b)| a * b).collect(),
        OperationKind::Div => inputs[0].iter().zip(&inputs[1]).map(|(a, b)| a / b).collect(),
        OperationKind::Neg => inputs[0].iter().map(|a| -a).collect(),
        OperationKind::Exp => inputs[0].iter().map(|a| a.exp()).collect(),
        OperationKind::Relu => inputs[0].iter().map(|a| a.max(0.0)).collect(),
        OperationKind::Reduce => vec![inputs[0].iter().sum()],
        OperationKind::Reshape => inputs[0].clone(),
        OperationKind::Conditional => inputs[0]
            .iter()
            .zip(&inputs[1])
            .zip(&inputs[2])
            .map(|((c, a), b)| if *c != 0.0 { *a } else { *b })
            .collect(),
    }
}

fn store(bench: &mut Bench, data: Vec<f32>) -> u64 {
    let storage = bench.next_storage;
    bench.next_storage += 1;
    bench.memory.insert(storage, data);
    storage
}

fn fused(bench: &Bench, trace: &Trace, inputs: &Vec<u64>) -> Vec<Vec<f32>> {
    let mut values: HashMap<u64, Vec<f32>> = HashMap::new();
    for (tensor, storage) in trace.inputs().iter().zip(inputs) {
        values.insert(tensor.id.value, bench.memory[storage].clone());
    }
    for op in trace.operations() {
        let operands: Vec<Vec<f32>> =
            op.inputs.iter().map(|t| values[&t.id.value].clone()).collect();
        values.insert(op.out.id.value, apply(op.kind, &operands));
    }
    trace.outputs().iter().map(|t| values[&t.id.value].clone()).collect()
}

impl ComputeDevice for TestDevice {
    fn id(&self) -> DeviceId {
        self.id
    }

    fn launch(
        &mut self,
        kernel: &ElementWiseKernelFactory,
        trace: &Trace,
        inputs: &Vec<u64>,
    ) -> Result<Vec<Handle>, DeviceError> {
        let mut bench = self.bench.lock().unwrap();
        bench.calls.push(Call::Launch { kernel: kernel.id(), inputs: inputs.clone() });
        if let Some(code) = bench.fail_launch {
            return Err(DeviceError { code });
        }
        let mut handles = Vec::new();
        for data in fused(&bench, trace, inputs) {
            handles.push(Handle::new(store(&mut bench, data)));
        }
        if bench.short_launch {
            handles.pop();
        }
        Ok(handles)
    }

    fn benchmark(
        &mut self,
        kernel: &ElementWiseKernelFactory,
        trace: &Trace,
        inputs: &Vec<u64>,
    ) -> Result<u64, DeviceError> {
        let mut bench = self.bench.lock().unwrap();
        bench.calls.push(Call::Benchmark { kernel: kernel.id(), inputs: inputs.clone() });
        let _ = fused(&bench, trace, inputs);
        if bench.latencies.is_empty() {
            return Ok(100);
        }
        bench.latencies.remove(0).map_err(|code| DeviceError { code })
    }

    fn run(&mut self, op: &OperationDescription, inputs: &Vec<u64>) -> Result<Handle, DeviceError> {
        let mut bench = self.bench.lock().unwrap();
        bench.calls.push(Call::Operation { kind: op.kind, inputs: inputs.clone() });
        let operands: Vec<Vec<f32>> = inputs.iter().map(|s| bench.memory[s].clone()).collect();
        let data = apply(op.kind, &operands);
        Ok(Handle::new(store(&mut bench, data)))
    }

    fn read(&mut self, storage: u64) -> Result<Vec<u8>, DeviceError> {
        let mut bench = self.bench.lock().unwrap();
        bench.calls.push(Call::Read(storage));
        match bench.memory.get(&storage) {
            Some(data) => Ok(data.iter().flat_map(|v| v.to_le_bytes()).collect()),
            None => Err(DeviceError { code: 404 }),
        }
    }

    fn upload(
        &mut self,
        _kind: ElementKind,
        _shape: &Vec<usize>,
        bytes: &Vec<u8>,
    ) -> Result<Handle, DeviceError> {
        let mut bench = self.bench.lock().unwrap();
        bench.calls.push(Call::Upload(bytes.len()));
        let data = floats(bytes);
        Ok(Handle::new(store(&mut bench, data)))
    }

    fn release(&mut self, handle: Handle) {
        let mut bench = self.bench.lock().unwrap();
        bench.calls.push(Call::Release(handle.storage()));
        bench.memory.remove(&handle.storage());
    }
}

fn floats(bytes: &[u8]) -> Vec<f32> {
    bytes.chunks(4).map(|c| f32::from_le_bytes([c[0], c[1], c[2], c[3]])).collect()
}

fn describe(id: TensorId, shape: &[usize], status: TensorStatus) -> TensorDescription {
    TensorDescription::new(id, shape.to_vec(), status)
}

fn given(
    client: &MutexFusionClient<TestDevice>,
    bench: &Arc<Mutex<Bench>>,
    data: Vec<f32>,
    shape: &[usize],
) -> FusionTensor<TestDevice> {
    let storage = store(&mut bench.lock().unwrap(), data);
    client.register_tensor(Handle::new(storage), shape.to_vec())
}

#[test]
fn scenario_add_mul_relu_is_one_fused_kernel_chosen_by_autotune() {
    let shape = [128usize, 128];
    let n = 128 * 128;
    let a: Vec<f32> = (0..n).map(|i| (i % 17) as f32 - 8.0).collect();
    let b: Vec<f32> = (0..n).map(|i| (i % 5) as f32 * 0.5).collect();
    let c: Vec<f32> = (0..n).map(|i| (i % 3) as f32 - 1.0).collect();

    let (device, bench) = TestDevice::new(0);
    let client = MutexFusionClient::new(device, AutotuneRegistry::new());
    let ta = given(&client, &bench, a.clone(), &shape);
    let tb = given(&client, &bench, b.clone(), &shape);
    let tc = given(&client, &bench, c.clone(), &shape);
    let t1 = client.tensor_uninitialized(shape.to_vec());
    let t2 = client.tensor_uninitialized(shape.to_vec());
    let t3 = client.tensor_uninitialized(shape.to_vec());

    client.register(OperationDescription::new(
        OperationKind::Add,
        vec![
            describe(ta.id, &shape, TensorStatus::ReadOnly),
            describe(tb.id, &shape, TensorStatus::ReadOnly),
        ],
        describe(t1.id, &shape, TensorStatus::NotInit),
    ));
    client.register(OperationDescription::new(
        OperationKind::Mul,
        vec![
            describe(t1.id, &shape, TensorStatus::ReadWrite),
            describe(tc.id, &shape, TensorStatus::ReadOnly),
        ],
        describe(t2.id, &shape, TensorStatus::NotInit),
    ));
    client.register(OperationDescription::new(
        OperationKind::Relu,
        vec![describe(t2.id, &shape, TensorStatus::ReadWrite)],
        describe(t3.id, &shape, TensorStatus::NotInit),
    ));

    let report = client.drain().unwrap();
    assert_eq!(report.segments, vec![Segment { start: 0, end: 3, fused: true }]);
    assert_eq!(report.executions.len(), 1);
    match &report.executions[0] {
        SegmentExecution::Fused(execution) => {
            assert_eq!(execution.variant, 0);
            assert_eq!(execution.trial, Some(vec![Some(100), Some(100), Some(100)]));
        },
        SegmentExecution::Direct => panic!("the run was not fused"),
    }

    let calls = bench.lock().unwrap().calls.clone();
    let launches = calls.iter().filter(|c| matches!(c, Call::Launch { .. })).count();
    let benchmarks = calls.iter().filter(|c| matches!(c, Call::Benchmark { .. })).count();
    let singles = calls.iter().filter(|c| matches!(c, Call::Operation { .. })).count();
    assert_eq!(launches, 1);
    assert_eq!(benchmarks, 3);
    assert_eq!(singles, 0);

    let reader = client.read_tensor_float(describe(t3.id, &shape, TensorStatus::ReadOnly)).unwrap();
    assert_eq!(reader.kind, ElementKind::Float);
    assert_eq!(reader.shape, shape.to_vec());
    let fused_output = floats(&reader.bytes);

    let sum = apply(OperationKind::Add, &[a, b]);
    let product = apply(OperationKind::Mul, &[sum, c]);
    let unfused_output = apply(OperationKind::Relu, &[product]);
    assert_eq!(fused_output.len(), n);
    for (x, y) in fused_output.iter().zip(&unfused_output) {
        assert!((x - y).abs() <= 1e-5);
    }

    assert_eq!(client.live_tensors(), vec![ta.id, tb.id, tc.id, t3.id]);
}

fn binary(
    kind: OperationKind,
    a: TensorId,
    b: TensorId,
    out: TensorId,
    shape: &[usize],
) -> OperationDescription {
    OperationDescription::new(
        kind,
        vec![
            describe(a, shape, TensorStatus::ReadOnly),
            describe(b, shape, TensorStatus::ReadOnly),
        ],
        describe(out, shape, TensorStatus::NotInit),
    )
}

fn unary(kind: OperationKind, a: TensorId, out: TensorId, shape: &[usize]) -> OperationDescription {
    OperationDescription::new(
        kind,
        vec![describe(a, shape, TensorStatus::ReadOnly)],
        describe(out, shape, TensorStatus::NotInit),
    )
}

fn server_on(index: u32) -> (FusionServer<TestDevice>, Arc<Mutex<Bench>>) {
    let (device, bench) = TestDevice::new(index);
    (FusionServer::new(device, AutotuneRegistry::new()), bench)
}

fn bound(
    server: &mut FusionServer<TestDevice>,
    bench: &Arc<Mutex<Bench>>,
    data: Vec<f32>,
) -> TensorId {
    let storage = store(&mut bench.lock().unwrap(), data);
    let id = server.create_empty_handle();
    assert!(server.context.handles.register_handle(id, Handle::new(storage)).is_ok());
    id
}

fn calls_of(bench: &Arc<Mutex<Bench>>) -> Vec<Call> {
    bench.lock().unwrap().calls.clone()
}

fn value_of(server: &FusionServer<TestDevice>, bench: &Arc<Mutex<Bench>>, id: TensorId) -> Vec<f32> {
    let storage = server.context.handles.storage_of(id).unwrap();
    bench.lock().unwrap().memory[&storage].clone()
}

fn fused_trial(execution: &SegmentExecution) -> (usize, Option<Vec<Option<u64>>>) {
    match execution {
        SegmentExecution::Fused(execution) => (execution.variant, execution.trial.clone()),
        SegmentExecution::Direct => panic!("the segment was not fused"),
    }
}

#[test]
fn fused_output_equals_unfused_output_for_every_shape_of_a_signature() {
    for shape in [vec![1usize], vec![7], vec![3, 5], vec![2, 3, 4]] {
        let n: usize = shape.iter().product();
        let a: Vec<f32> = (0..n).map(|i| i as f32 * 0.25 - 3.0).collect();
        let b: Vec<f32> = (0..n).map(|i| 1.5 - i as f32 * 0.125).collect();
        let (mut server, bench) = server_on(0);
        let mut cache = AutotuneCache::new();
        let ta = bound(&mut server, &bench, a.clone());
        let tb = bound(&mut server, &bench, b.clone());
        let t1 = server.create_empty_handle();
        let t2 = server.create_empty_handle();
        let t3 = server.create_empty_handle();
        server.register(binary(OperationKind::Sub, ta, tb, t1, &shape));
        server.register(binary(OperationKind::Mul, t1, ta, t2, &shape));
        server.register(unary(OperationKind::Exp, t2, t3, &shape));
        let report = server.drain_with(&mut cache).unwrap();
        assert_eq!(report.segments, vec![Segment { start: 0, end: 3, fused: true }]);

        let difference = apply(OperationKind::Sub, &[a.clone(), b]);
        let product = apply(OperationKind::Mul, &[difference.clone(), a]);
        let expected = apply(OperationKind::Exp, &[product.clone()]);
        for (x, y) in value_of(&server, &bench, t3).iter().zip(&expected) {
            assert!((x - y).abs() <= 1e-5);
        }
        for (x, y) in value_of(&server, &bench, t1).iter().zip(&difference) {
            assert!((x - y).abs() <= 1e-5);
        }
        for (x, y) in value_of(&server, &bench, t2).iter().zip(&product) {
            assert!((x - y).abs() <= 1e-5);
        }
    }
}

#[test]
fn a_signature_is_compiled_once_across_drains_with_different_shapes() {
    let (mut server, bench) = server_on(0);
    let mut cache = AutotuneCache::new();
    assert_eq!(server.compiled.compilations(), 0);
    let mut launched = Vec::new();
    for shape in [vec![4usize], vec![2, 8], vec![3, 3, 3]] {
        let n: usize = shape.iter().product();
        let ta = bound(&mut server, &bench, vec![1.0; n]);
        let tb = bound(&mut server, &bench, vec![2.0; n]);
        let t1 = server.create_empty_handle();
        let t2 = server.create_empty_handle();
        server.register(binary(OperationKind::Add, ta, tb, t1, &shape));
        server.register(unary(OperationKind::Relu, t1, t2, &shape));
        let report = server.drain_with(&mut cache).unwrap();
        let (variant, trial) = fused_trial(&report.executions[0]);
        assert_eq!(variant, 0);
        assert_eq!(trial, Some(vec![Some(100), Some(100), Some(100)]));
        assert_eq!(server.compiled.compilations(), 1);
        assert_eq!(value_of(&server, &bench, t2), vec![3.0; n]);
        match calls_of(&bench).last().unwrap() {
            Call::Launch { kernel, .. } => launched.push(*kernel),
            other => panic!("unexpected last call {:?}", other),
        }
    }
    assert_eq!(launched.len(), 3);
    assert_eq!(launched[0], launched[1]);
    assert_eq!(launched[1], launched[2]);

    let shape = vec![4usize];
    let ta = bound(&mut server, &bench, vec![1.0; 4]);
    let t1 = server.create_empty_handle();
    server.register(unary(OperationKind::Neg, ta, t1, &shape));
    server.drain_with(&mut cache).unwrap();
    assert_eq!(server.compiled.compilations(), 2);
    assert_eq!(value_of(&server, &bench, t1), vec![-1.0; 4]);
}

#[test]
fn a_cached_decision_is_reused_and_names_the_fastest_of_the_first_trial() {
    let (mut server, bench) = server_on(0);
    let mut cache = AutotuneCache::new();
    bench.lock().unwrap().latencies = vec![Ok(50), Ok(10), Ok(50)];
    let shape = vec![6usize];

    let ta = bound(&mut server, &bench, vec![1.0; 6]);
    let t1 = server.create_empty_handle();
    server.register(unary(OperationKind::Neg, ta, t1, &shape));
    let report = server.drain_with(&mut cache).unwrap();
    assert_eq!(fused_trial(&report.executions[0]), (1, Some(vec![Some(50), Some(10), Some(50)])));
    let first = calls_of(&bench);
    assert_eq!(first.len(), 4);
    let (default_id, alternate_id) = match (&first[0], &first[1], &first[2]) {
        (
            Call::Benchmark { kernel: a, .. },
            Call::Benchmark { kernel: b, .. },
            Call::Benchmark { kernel: c, .. },
        ) => {
            assert_eq!(a, c);
            (*a, *b)
        },
        other => panic!("unexpected trial {:?}", other),
    };
    let input = server.context.handles.storage_of(ta).unwrap();
    assert_eq!(first[3], Call::Launch { kernel: alternate_id, inputs: vec![input] });
    let key = AutotuneKey::new(1, &shape);
    assert_eq!(cache.lookup(&server.device, &key), Some(1));

    for _ in 0..3 {
        let before = calls_of(&bench).len();
        let tb = bound(&mut server, &bench, vec![2.0; 6]);
        let t2 = server.create_empty_handle();
        server.register(unary(OperationKind::Neg, tb, t2, &shape));
        let report = server.drain_with(&mut cache).unwrap();
        assert_eq!(fused_trial(&report.executions[0]), (1, None));
        let after = calls_of(&bench);
        assert_eq!(after.len(), before + 1);
        let input = server.context.handles.storage_of(tb).unwrap();
        assert_eq!(after[before], Call::Launch { kernel: alternate_id, inputs: vec![input] });
        assert_eq!(cache.lookup(&server.device, &key), Some(1));
    }
    assert_ne!(default_id, alternate_id);
}

#[test]
fn a_tie_goes_to_the_default_configuration() {
    let (mut server, bench) = server_on(0);
    let mut cache = AutotuneCache::new();
    bench.lock().unwrap().latencies = vec![Ok(20), Ok(20), Ok(20)];
    let ta = bound(&mut server, &bench, vec![1.0; 2]);
    let t1 = server.create_empty_handle();
    server.register(unary(OperationKind::Neg, ta, t1, &[2]));
    let report = server.drain_with(&mut cache).unwrap();
    assert_eq!(fused_trial(&report.executions[0]), (0, Some(vec![Some(20), Some(20), Some(20)])));
}

#[test]
fn the_repeated_default_can_win_the_trial() {
    let (mut server, bench) = server_on(0);
    let mut cache = AutotuneCache::new();
    bench.lock().unwrap().latencies = vec![Ok(30), Ok(20), Ok(10)];
    let ta = bound(&mut server, &bench, vec![1.0; 2]);
    let t1 = server.create_empty_handle();
    server.register(unary(OperationKind::Neg, ta, t1, &[2]));
    let report = server.drain_with(&mut cache).unwrap();
    assert_eq!(fused_trial(&report.executions[0]), (2, Some(vec![Some(30), Some(20), Some(10)])));
    let calls = calls_of(&bench);
    match (&calls[0], &calls[3]) {
        (Call::Benchmark { kernel: default_id, .. }, Call::Launch { kernel, .. }) => {
            assert_eq!(kernel, default_id)
        },
        other => panic!("unexpected calls {:?}", other),
    }
}

#[test]
fn a_candidate_that_fails_never_wins() {
    let (mut server, bench) = server_on(0);
    let mut cache = AutotuneCache::new();
    bench.lock().unwrap().latencies = vec![Err(1), Ok(500), Err(2)];
    let ta = bound(&mut server, &bench, vec![1.0; 2]);
    let t1 = server.create_empty_handle();
    server.register(unary(OperationKind::Neg, ta, t1, &[2]));
    let report = server.drain_with(&mut cache).unwrap();
    assert_eq!(fused_trial(&report.executions[0]), (1, Some(vec![None, Some(500), None])));
}

#[test]
fn a_trial_in_which_every_candidate_fails_is_an_error() {
    let (mut server, bench) = server_on(0);
    let mut cache = AutotuneCache::new();
    bench.lock().unwrap().latencies = vec![Err(1), Err(2), Err(3)];
    let ta = bound(&mut server, &bench, vec![1.0; 2]);
    let t1 = server.create_empty_handle();
    server.register(unary(OperationKind::Neg, ta, t1, &[2]));
    let failure = server.drain_with(&mut cache).err().unwrap();
    assert_eq!(failure, DrainError { completed: 0, cause: FusionError::BenchmarkFailed });
    assert_eq!(cache.lookup(&server.device, &AutotuneKey::new(1, &[2])), None);
    assert_eq!(server.stream.len(), 1);
    assert_eq!(calls_of(&bench).len(), 3);
    assert!(!server.context.handles.is_bound(t1));
}

#[test]
fn draining_an_empty_stream_changes_nothing() {
    let (mut server, bench) = server_on(0);
    let ta = bound(&mut server, &bench, vec![1.0; 2]);
    let report = server.drain_streams().unwrap();
    assert!(report.segments.is_empty());
    assert!(report.executions.is_empty());
    assert!(calls_of(&bench).is_empty());
    assert_eq!(server.context.handles.live_ids(), vec![ta]);
    assert_eq!(server.compiled.compilations(), 0);
    assert_eq!(server.stream.len(), 0);

    let t1 = server.create_empty_handle();
    server.register(unary(OperationKind::Neg, ta, t1, &[2]));
    server.drain_streams().unwrap();
    let calls = calls_of(&bench);
    let live = server.context.handles.live_ids();
    let report = server.drain_streams().unwrap();
    assert!(report.segments.is_empty());
    assert_eq!(calls_of(&bench), calls);
    assert_eq!(server.context.handles.live_ids(), live);
    assert_eq!(server.compiled.compilations(), 1);
}

#[test]
fn an_operation_that_does_not_fuse_splits_the_queue() {
    let (mut server, bench) = server_on(0);
    let mut cache = AutotuneCache::new();
    let shape = [4usize];
    let ta = bound(&mut server, &bench, vec![1.0, -2.0, 3.0, -4.0]);
    let t1 = server.create_empty_handle();
    let t2 = server.create_empty_handle();
    let t3 = server.create_empty_handle();
    let t4 = server.create_empty_handle();
    server.register(unary(OperationKind::Relu, ta, t1, &shape));
    server.register(unary(OperationKind::Neg, t1, t2, &shape));
    server.register(OperationDescription::new(
        OperationKind::Reduce,
        vec![describe(t2, &shape, TensorStatus::ReadOnly)],
        describe(t3, &[1], TensorStatus::NotInit),
    ));
    server.register(unary(OperationKind::Exp, t3, t4, &[1]));
    let report = server.drain_with(&mut cache).unwrap();
    assert_eq!(
        report.segments,
        vec![
            Segment { start: 0, end: 2, fused: true },
            Segment { start: 2, end: 3, fused: false },
            Segment { start: 3, end: 4, fused: true },
        ]
    );
    assert!(matches!(report.executions[0], SegmentExecution::Fused(_)));
    assert!(matches!(report.executions[1], SegmentExecution::Direct));
    assert!(matches!(report.executions[2], SegmentExecution::Fused(_)));
    assert_eq!(value_of(&server, &bench, t2), vec![-1.0, 0.0, -3.0, 0.0]);
    assert_eq!(value_of(&server, &bench, t3), vec![-4.0]);
    let last = value_of(&server, &bench, t4);
    assert!((last[0] - (-4.0f32).exp()).abs() <= 1e-6);
    let singles: Vec<Call> =
        calls_of(&bench).into_iter().filter(|c| matches!(c, Call::Operation { .. })).collect();
    let reduced = server.context.handles.storage_of(t2).unwrap();
    assert_eq!(singles, vec![Call::Operation { kind: OperationKind::Reduce, inputs: vec![reduced] }]);
    assert_eq!(server.stream.len(), 0);
}

#[test]
fn a_missing_operand_stops_the_drain_and_keeps_the_rest_queued() {
    let (mut server, bench) = server_on(0);
    let mut cache = AutotuneCache::new();
    let shape = [2usize];
    let ta = bound(&mut server, &bench, vec![1.0, 2.0]);
    let ghost_input = server.create_empty_handle();
    let t1 = server.create_empty_handle();
    let t2 = server.create_empty_handle();
    let t3 = server.create_empty_handle();
    server.register(unary(OperationKind::Neg, ta, t1, &shape));
    server.register(unary(OperationKind::Neg, ghost_input, t2, &shape));
    server.register(unary(OperationKind::Neg, t1, t3, &shape));
    let failure = server.drain_with(&mut cache).err().unwrap();
    assert_eq!(
        failure,
        DrainError { completed: 1, cause: FusionError::MissingHandle(ghost_input) }
    );
    assert_eq!(server.stream.len(), 2);
    assert_eq!(value_of(&server, &bench, t1), vec![-1.0, -2.0]);
    assert!(!server.context.handles.is_bound(t2));
    assert!(!server.context.handles.is_bound(t3));
    assert!(calls_of(&bench).iter().all(|c| !matches!(c, Call::Operation { .. })));
}

#[test]
fn a_result_for_an_identity_never_handed_out_is_refused() {
    let (mut server, bench) = server_on(0);
    let mut cache = AutotuneCache::new();
    let ta = bound(&mut server, &bench, vec![1.0, 2.0]);
    let stranger = TensorId::new(99);
    server.register(unary(OperationKind::Neg, ta, stranger, &[2]));
    let failure = server.drain_with(&mut cache).err().unwrap();
    assert_eq!(failure, DrainError { completed: 0, cause: FusionError::UnknownTensor(stranger) });
    assert!(calls_of(&bench).is_empty());
}

#[test]
fn a_result_for_an_identity_that_owns_storage_is_refused() {
    let (mut server, bench) = server_on(0);
    let mut cache = AutotuneCache::new();
    let ta = bound(&mut server, &bench, vec![1.0, 2.0]);
    let tb = bound(&mut server, &bench, vec![3.0, 4.0]);
    server.register(unary(OperationKind::Neg, ta, tb, &[2]));
    let failure = server.drain_with(&mut cache).err().unwrap();
    assert_eq!(failure, DrainError { completed: 0, cause: FusionError::OutputBound(tb) });
    assert!(calls_of(&bench).is_empty());
    assert_eq!(value_of(&server, &bench, tb), vec![3.0, 4.0]);
}

#[test]
fn a_device_failure_is_surfaced_and_binds_nothing() {
    let (mut server, bench) = server_on(0);
    let mut cache = AutotuneCache::new();
    bench.lock().unwrap().fail_launch = Some(13);
    let ta = bound(&mut server, &bench, vec![1.0, 2.0]);
    let t1 = server.create_empty_handle();
    server.register(unary(OperationKind::Neg, ta, t1, &[2]));
    let failure = server.drain_with(&mut cache).err().unwrap();
    assert_eq!(
        failure,
        DrainError { completed: 0, cause: FusionError::Device(DeviceError { code: 13 }) }
    );
    assert!(!server.context.handles.is_bound(t1));
    assert_eq!(cache.lookup(&server.device, &AutotuneKey::new(1, &[2])), Some(0));
}

#[test]
fn a_device_that_returns_too_few_results_is_a_mismatch() {
    let (mut server, bench) = server_on(0);
    let mut cache = AutotuneCache::new();
    bench.lock().unwrap().short_launch = true;
    let ta = bound(&mut server, &bench, vec![1.0, 2.0]);
    let t1 = server.create_empty_handle();
    server.register(unary(OperationKind::Neg, ta, t1, &[2]));
    let failure = server.drain_with(&mut cache).err().unwrap();
    assert_eq!(failure, DrainError { completed: 0, cause: FusionError::OutputMismatch });
    assert!(!server.context.handles.is_bound(t1));
}

fn unit_for(
    ops: Vec<OperationDescription>,
    device: DeviceId,
) -> ElementWise<fusion_core::optimization::ExecutionPhase> {
    let count = ops.len();
    ElementWise::new(Trace::record(ops), count, device, CompilationPhase).compile()
}

#[test]
fn compile_builds_both_variants_from_the_signature() {
    let device = DeviceId::new(1, 2);
    let ops = vec![
        binary(OperationKind::Add, TensorId::new(0), TensorId::new(1), TensorId::new(2), &[8]),
        unary(OperationKind::Relu, TensorId::new(2), TensorId::new(3), &[8]),
    ];
    let unit = unit_for(ops, device);
    let signature = vec![
        OperationSignature { kind: OperationKind::Add, arity: 2 },
        OperationSignature { kind: OperationKind::Relu, arity: 1 },
    ];
    assert_eq!(unit.len(), 2);
    assert_eq!(unit.device, device);
    assert_eq!(unit.phase.kernel_factory_1.signature(), &signature);
    assert_eq!(unit.phase.kernel_factory_2.signature(), &signature);
    assert_eq!(
        unit.phase.kernel_factory_1.cube_dim(),
        LaunchConfiguration { x: 16, y: 16, z: 1 }
    );
    assert_eq!(
        unit.phase.kernel_factory_2.cube_dim(),
        LaunchConfiguration { x: 32, y: 8, z: 1 }
    );
    assert_ne!(unit.phase.kernel_factory_1.cube_dim(), unit.phase.kernel_factory_2.cube_dim());
    assert_eq!(unit.trace.len(), 2);
    assert_eq!(CANDIDATES, 3);
}

#[test]
fn a_unit_put_away_and_rebuilt_keeps_trace_and_count() {
    let device = DeviceId::new(0, 0);
    let ops = vec![unary(OperationKind::Exp, TensorId::new(0), TensorId::new(1), &[3, 3])];
    let unit = unit_for(ops, device);
    let state: ElementWiseState = unit.to_state();
    let other = DeviceId::new(0, 5);
    let rebuilt = ElementWise::from_state(&other, state);
    assert_eq!(rebuilt.len(), unit.len());
    assert_eq!(rebuilt.device, other);
    assert_eq!(rebuilt.trace.signature(), unit.trace.signature());
    assert_eq!(rebuilt.trace.inputs().len(), 1);
    assert_eq!(rebuilt.trace.inputs()[0].id, TensorId::new(0));
    assert_eq!(rebuilt.trace.inputs()[0].shape, vec![3, 3]);
    assert_eq!(rebuilt.trace.outputs()[0].id, TensorId::new(1));
    assert_eq!(rebuilt.phase.kernel_factory_1.signature(), unit.phase.kernel_factory_1.signature());
    assert_eq!(rebuilt.phase.kernel_factory_2.cube_dim(), unit.phase.kernel_factory_2.cube_dim());
}

#[test]
fn the_shape_of_the_first_output_stands_for_the_trace() {
    let device = DeviceId::new(0, 0);
    let trace = Trace::new(
        vec![],
        vec![describe(TensorId::new(0), &[9], TensorStatus::ReadOnly)],
        vec![
            describe(TensorId::new(1), &[2, 5], TensorStatus::NotInit),
            describe(TensorId::new(2), &[7], TensorStatus::NotInit),
        ],
    );
    let unit = ElementWise::new(trace, 4, device, CompilationPhase).compile();
    let mut context = Context::new(HashMap::new(), HandleContainer::new());
    context.bind_shape(&describe(TensorId::new(0), &[9], TensorStatus::ReadOnly));
    context.bind_shape(&describe(TensorId::new(1), &[2, 5], TensorStatus::NotInit));
    assert_eq!(unit.autotune_shape(&context), &[2usize, 5][..]);

    let trace = Trace::new(
        vec![],
        vec![
            describe(TensorId::new(0), &[9], TensorStatus::ReadOnly),
            describe(TensorId::new(3), &[4], TensorStatus::ReadOnly),
        ],
        vec![],
    );
    let unit = ElementWise::new(trace, 4, device, CompilationPhase).compile();
    assert_eq!(unit.autotune_shape(&context), &[9usize][..]);
}

#[test]
fn a_trace_without_boundary_has_an_empty_shape_key_and_is_cached_like_any_other() {
    let (device, bench) = TestDevice::new(3);
    let id = DeviceId::new(0, 3);
    let mut client = ComputeClient::new(device);
    let mut unit =
        ElementWise::new(Trace::new(vec![], vec![], vec![]), 0, id, CompilationPhase).compile();
    let mut context = Context::new(HashMap::new(), HandleContainer::new());
    let mut cache = AutotuneCache::new();
    assert!(unit.autotune_shape(&context).is_empty());

    let first = unit.execute(&mut context, &mut client, &mut cache).ok().unwrap();
    assert_eq!(first.variant, 0);
    assert_eq!(first.trial, Some(vec![Some(100), Some(100), Some(100)]));
    assert_eq!(cache.lookup(&id, &AutotuneKey::new(0, &[])), Some(0));
    assert_eq!(calls_of(&bench).len(), 4);

    let second = unit.execute(&mut context, &mut client, &mut cache).ok().unwrap();
    assert_eq!(second.variant, 0);
    assert_eq!(second.trial, None);
    assert_eq!(calls_of(&bench).len(), 5);
    assert!(matches!(calls_of(&bench)[4], Call::Launch { .. }));
}

#[test]
fn an_index_outside_the_candidates_in_the_registry_is_fatal() {
    let (device, bench) = TestDevice::new(0);
    let id = DeviceId::new(0, 0);
    let mut client = ComputeClient::new(device);
    let mut unit =
        ElementWise::new(Trace::new(vec![], vec![], vec![]), 2, id, CompilationPhase).compile();
    let mut context = Context::new(HashMap::new(), HandleContainer::new());
    let mut cache = AutotuneCache::new();
    assert_eq!(cache.record(id, AutotuneKey::new(2, &[]), 7), 7);
    let failure = unit.execute(&mut context, &mut client, &mut cache).err().unwrap();
    assert_eq!(failure, FusionError::CorruptCache(7));
    assert!(calls_of(&bench).is_empty());

    let failure = unit
        .run_autotune(&mut context, &mut client, &mut cache, AutotuneKey::new(2, &[]))
        .err()
        .unwrap();
    assert_eq!(failure, FusionError::CorruptCache(7));
    assert_eq!(calls_of(&bench).len(), 3);
    assert_eq!(cache.lookup(&id, &AutotuneKey::new(2, &[])), Some(7));
}

#[test]
fn run_kernel_launches_the_variant_the_index_names() {
    let (device, bench) = TestDevice::new(0);
    let id = DeviceId::new(0, 0);
    let mut client = ComputeClient::new(device);
    let mut unit =
        ElementWise::new(Trace::new(vec![], vec![], vec![]), 1, id, CompilationPhase).compile();
    let mut context = Context::new(HashMap::new(), HandleContainer::new());
    for index in 0..CANDIDATES {
        assert!(unit.run_kernel(&mut context, &mut client, index).is_ok());
    }
    let default_id = unit.phase.kernel_factory_1.id();
    let alternate_id = unit.phase.kernel_factory_2.id();
    assert_eq!(
        calls_of(&bench),
        vec![
            Call::Launch { kernel: default_id, inputs: vec![] },
            Call::Launch { kernel: alternate_id, inputs: vec![] },
            Call::Launch { kernel: default_id, inputs: vec![] },
        ]
    );
}

#[test]
fn a_transfer_gives_the_tensor_to_the_destination_and_takes_it_from_the_source() {
    let registry = AutotuneRegistry::new();
    let (device_a, bench_a) = TestDevice::new(0);
    let (device_b, bench_b) = TestDevice::new(1);
    let source = MutexFusionClient::new(device_a, registry.share());
    let destination = MutexFusionClient::new(device_b, registry.share());
    assert_eq!(*source.device(), DeviceId::new(0, 0));
    assert_eq!(*destination.device(), DeviceId::new(0, 1));

    let data = vec![1.0f32, -2.5, 3.25];
    let shape = [3usize];
    let input = given(&source, &bench_a, data.clone(), &shape);
    let out = source.tensor_uninitialized(shape.to_vec());
    source.register(unary(OperationKind::Neg, input.id, out.id, &shape));

    let moved = source
        .change_client_float(describe(out.id, &shape, TensorStatus::ReadOnly), destination.clone())
        .ok()
        .unwrap();
    assert_eq!(moved.shape, shape.to_vec());
    assert_eq!(*moved.client.device(), DeviceId::new(0, 1));
    assert_eq!(moved.id, TensorId::new(0));

    let reader = destination
        .read_tensor_float(describe(moved.id, &shape, TensorStatus::ReadOnly))
        .unwrap();
    assert_eq!(floats(&reader.bytes), vec![-1.0, 2.5, -3.25]);
    assert_eq!(destination.live_tensors(), vec![moved.id]);

    assert_eq!(source.live_tensors(), vec![input.id]);
    let gone = source.read_tensor_float(describe(out.id, &shape, TensorStatus::ReadOnly));
    assert_eq!(gone.err(), Some(FusionError::MissingHandle(out.id)));

    let calls = calls_of(&bench_a);
    let n = calls.len();
    match (&calls[n - 2], &calls[n - 1]) {
        (Call::Read(read), Call::Release(released)) => assert_eq!(read, released),
        other => panic!("unexpected end of the source's calls {:?}", other),
    }
    assert_eq!(calls_of(&bench_b)[0], Call::Upload(12));

    let back = destination
        .change_client_int(describe(moved.id, &shape, TensorStatus::ReadOnly), source.clone())
        .ok()
        .unwrap();
    assert_eq!(*back.client.device(), DeviceId::new(0, 0));
    assert!(destination.live_tensors().is_empty());
    assert_eq!(source.live_tensors(), vec![input.id, back.id]);
    let reader =
        source.read_tensor_int(describe(back.id, &shape, TensorStatus::ReadOnly)).unwrap();
    assert_eq!(reader.kind, ElementKind::Int);
    assert_eq!(floats(&reader.bytes), vec![-1.0, 2.5, -3.25]);
}

#[test]
fn a_transfer_of_a_tensor_without_storage_fails_and_moves_nothing() {
    let registry = AutotuneRegistry::new();
    let (device_a, _bench_a) = TestDevice::new(0);
    let (device_b, bench_b) = TestDevice::new(1);
    let source = MutexFusionClient::new(device_a, registry.share());
    let destination = MutexFusionClient::new(device_b, registry.share());
    let empty = source.tensor_uninitialized(vec![2]);
    let outcome = source
        .change_client_bool(describe(empty.id, &[2], TensorStatus::ReadOnly), destination.clone());
    assert_eq!(outcome.err(), Some(FusionError::MissingHandle(empty.id)));
    assert!(destination.live_tensors().is_empty());
    assert!(calls_of(&bench_b).is_empty());
}

#[test]
fn a_transfer_between_clients_of_one_server_keeps_the_identity() {
    let (device, bench) = TestDevice::new(0);
    let client = MutexFusionClient::new(device, AutotuneRegistry::new());
    let twin = client.clone();
    let tensor = given(&client, &bench, vec![4.0, 5.0], &[2]);
    let moved = client
        .change_client_float(describe(tensor.id, &[2], TensorStatus::ReadOnly), twin)
        .ok()
        .unwrap();
    assert_eq!(moved.id, tensor.id);
    assert_eq!(client.live_tensors(), vec![tensor.id]);
    assert!(calls_of(&bench).is_empty());
}

#[test]
fn the_lower_key_is_locked_first_in_both_directions() {
    let low = LockKey { device: DeviceId::new(0, 1), serial: 9 };
    let high = LockKey { device: DeviceId::new(0, 2), serial: 3 };
    let other_family = LockKey { device: DeviceId::new(1, 0), serial: 0 };
    assert_eq!(lock_order(&low, &high), LockOrder::SourceFirst);
    assert_eq!(lock_order(&high, &low), LockOrder::DestinationFirst);
    assert_eq!(lock_order(&high, &other_family), LockOrder::SourceFirst);
    assert_eq!(lock_order(&other_family, &low), LockOrder::DestinationFirst);
    assert!(low.precedes(&high));
    assert!(!high.precedes(&low));
    assert!(!low.precedes(&low));
    assert!(DeviceId::new(0, 1).precedes(&DeviceId::new(0, 2)));
    assert!(!DeviceId::new(1, 0).precedes(&DeviceId::new(0, 2)));
}

#[test]
fn two_servers_of_one_device_are_ordered_by_serial_number() {
    let first = LockKey { device: DeviceId::new(0, 1), serial: 4 };
    let second = LockKey { device: DeviceId::new(0, 1), serial: 5 };
    assert_eq!(lock_order(&first, &second), LockOrder::SourceFirst);
    assert_eq!(lock_order(&second, &first), LockOrder::DestinationFirst);
    assert_eq!(lock_order(&first, &first), LockOrder::DestinationFirst);

    let registry = AutotuneRegistry::new();
    let (device_a, bench_a) = TestDevice::new(7);
    let (device_b, bench_b) = TestDevice::new(7);
    let a = MutexFusionClient::new(device_a, registry.share());
    let b = MutexFusionClient::new(device_b, registry.share());
    assert_eq!(a.lock_key().device, b.lock_key().device);
    assert_eq!(a.clone().lock_key(), a.lock_key());
    let tensor = given(&a, &bench_a, vec![1.0, 2.0], &[2]);
    let there = a
        .change_client_float(describe(tensor.id, &[2], TensorStatus::ReadOnly), b.clone())
        .ok()
        .unwrap();
    let back = b
        .change_client_float(describe(there.id, &[2], TensorStatus::ReadOnly), a.clone())
        .ok()
        .unwrap();
    let reader = a.read_tensor_float(describe(back.id, &[2], TensorStatus::ReadOnly)).unwrap();
    assert_eq!(floats(&reader.bytes), vec![1.0, 2.0]);
    assert!(b.live_tensors().is_empty());
    assert!(!calls_of(&bench_b).is_empty());
}

#[test]
fn an_orphan_is_dropped_and_its_storage_given_back() {
    let (device, bench) = TestDevice::new(0);
    let client = MutexFusionClient::new(device, AutotuneRegistry::new());
    let tensor = given(&client, &bench, vec![4.0, 5.0], &[2]);
    let storage = 0;
    let never_bound = client.tensor_uninitialized(vec![2]);
    client.register_orphan(&never_bound.id);
    assert!(calls_of(&bench).is_empty());
    client.register_orphan(&tensor.id);
    assert_eq!(calls_of(&bench), vec![Call::Release(storage)]);
    assert!(client.live_tensors().is_empty());
    client.register_orphan(&tensor.id);
    assert_eq!(calls_of(&bench).len(), 1);
    let outcome = client.read_tensor_bool(describe(tensor.id, &[2], TensorStatus::ReadOnly));
    assert_eq!(outcome.err(), Some(FusionError::MissingHandle(tensor.id)));
}

#[test]
fn a_read_reflects_what_was_queued_before_it_and_nothing_queued_after() {
    let (device, bench) = TestDevice::new(0);
    let client = MutexFusionClient::new(device, AutotuneRegistry::new());
    let shape = [2usize];
    let input = given(&client, &bench, vec![1.0, 2.0], &shape);
    let first = client.tensor_uninitialized(shape.to_vec());
    let second = client.tensor_uninitialized(shape.to_vec());
    client.register(unary(OperationKind::Neg, input.id, first.id, &shape));
    let reader =
        client.read_tensor_float(describe(first.id, &shape, TensorStatus::ReadOnly)).unwrap();
    assert_eq!(floats(&reader.bytes), vec![-1.0, -2.0]);
    client.register(unary(OperationKind::Exp, first.id, second.id, &shape));
    assert_eq!(client.live_tensors(), vec![input.id, first.id]);
    let report = client.drain().unwrap();
    assert_eq!(report.segments.len(), 1);
    assert_eq!(client.live_tensors(), vec![input.id, first.id, second.id]);
}

#[test]
fn servers_that_share_a_registry_share_decisions_per_device() {
    let registry = AutotuneRegistry::new();
    let (device_a, bench_a) = TestDevice::new(0);
    let (device_b, bench_b) = TestDevice::new(1);
    let (device_c, bench_c) = TestDevice::new(0);
    let a = MutexFusionClient::new(device_a, registry.share());
    let b = MutexFusionClient::new(device_b, registry.share());
    let c = MutexFusionClient::new(device_c, registry.share());
    let shape = [2usize];
    let key = AutotuneKey::new(1, &shape);
    assert_eq!(registry.autotune_result(&DeviceId::new(0, 0), &key), None);
    for (client, bench) in [(&a, &bench_a), (&b, &bench_b), (&c, &bench_c)] {
        let input = given(client, bench, vec![1.0, 2.0], &shape);
        let out = client.tensor_uninitialized(shape.to_vec());
        client.register(unary(OperationKind::Neg, input.id, out.id, &shape));
        client.drain().unwrap();
    }
    let benchmarks =
        |bench: &Arc<Mutex<Bench>>| calls_of(bench).iter().filter(|c| matches!(c, Call::Benchmark { .. })).count();
    assert_eq!(benchmarks(&bench_a), 3);
    assert_eq!(benchmarks(&bench_b), 3);
    assert_eq!(benchmarks(&bench_c), 0);
    assert_eq!(registry.autotune_result(&DeviceId::new(0, 0), &key), Some(0));
    assert_eq!(registry.autotune_result(&DeviceId::new(0, 1), &key), Some(0));
    assert_eq!(registry.autotune_result(&DeviceId::new(0, 2), &key), None);
}

#[test]
fn two_callers_registering_and_draining_on_one_client_lose_nothing() {
    let (device, bench) = TestDevice::new(0);
    let client = MutexFusionClient::new(device, AutotuneRegistry::new());
    let shape = [2usize];
    let input = given(&client, &bench, vec![1.0, 2.0], &shape);
    let callers = [client.clone(), client.clone()];
    let mut made: Vec<Vec<TensorId>> = vec![Vec::new(), Vec::new()];
    for round in 0..100 {
        let order = if round % 2 == 0 { [0usize, 1] } else { [1, 0] };
        for who in order {
            let out = callers[who].tensor_uninitialized(vec![2]);
            callers[who].register(unary(OperationKind::Neg, input.id, out.id, &[2]));
            made[who].push(out.id);
        }
        for who in order {
            callers[who].drain().unwrap();
        }
    }
    client.register_orphan(&input.id);
    let live = client.live_tensors();
    assert_eq!(live.len(), 200);
    assert_eq!(made[0].len(), 100);
    assert_eq!(made[1].len(), 100);
    let mut all: Vec<TensorId> = made.concat();
    all.sort_by_key(|id| id.value);
    all.dedup();
    assert_eq!(all.len(), 200);
    assert_eq!(live, all);
    for id in &live {
        let reader =
            client.read_tensor_float(describe(*id, &shape, TensorStatus::ReadOnly)).unwrap();
        assert_eq!(floats(&reader.bytes), vec![-1.0, -2.0]);
    }
}

#[test]
fn a_transfer_between_servers_drains_the_source_and_moves_the_storage() {
    let (mut source, bench_a) = server_on(0);
    let (mut destination, bench_b) = server_on(1);
    let shape = [2usize];
    let input = bound(&mut source, &bench_a, vec![1.0, 2.0]);
    let out = source.create_empty_handle();
    source.register(unary(OperationKind::Neg, input, out, &shape));
    destination.create_empty_handle();

    let moved = transfer(
        &mut source,
        &mut destination,
        &describe(out, &shape, TensorStatus::ReadOnly),
        ElementKind::Float,
    )
    .unwrap();
    assert_eq!(moved, TensorId::new(1));
    assert_eq!(source.stream.len(), 0);
    assert_eq!(source.context.handles.live_ids(), vec![input]);
    assert_eq!(destination.context.handles.live_ids(), vec![moved]);
    assert_eq!(value_of(&destination, &bench_b, moved), vec![-1.0, -2.0]);
    let calls = calls_of(&bench_a);
    let n = calls.len();
    assert_eq!(calls[n - 2], Call::Read(1));
    assert_eq!(calls[n - 1], Call::Release(1));
    assert_eq!(calls_of(&bench_b), vec![Call::Upload(8)]);

    let again = transfer(
        &mut source,
        &mut destination,
        &describe(out, &shape, TensorStatus::ReadOnly),
        ElementKind::Float,
    );
    assert_eq!(again, Err(FusionError::MissingHandle(out)));
    assert_eq!(calls_of(&bench_a).len(), n);
    assert_eq!(calls_of(&bench_b).len(), 1);
}

#[test]
fn a_transfer_whose_drain_fails_moves_nothing() {
    let (mut source, bench_a) = server_on(0);
    let (mut destination, bench_b) = server_on(1);
    let shape = [2usize];
    let kept = bound(&mut source, &bench_a, vec![1.0, 2.0]);
    let never_bound = source.create_empty_handle();
    let out = source.create_empty_handle();
    source.register(unary(OperationKind::Neg, never_bound, out, &shape));
    let outcome = transfer(
        &mut source,
        &mut destination,
        &describe(kept, &shape, TensorStatus::ReadOnly),
        ElementKind::Float,
    );
    assert_eq!(outcome, Err(FusionError::MissingHandle(never_bound)));
    assert_eq!(source.stream.len(), 1);
    assert_eq!(source.context.handles.live_ids(), vec![kept]);
    assert!(destination.context.handles.live_ids().is_empty());
    assert!(calls_of(&bench_a).is_empty());
    assert!(calls_of(&bench_b).is_empty());
}

#[test]
fn settling_drains_and_keeps_the_identity() {
    let (mut server, bench) = server_on(0);
    let shape = [2usize];
    let input = bound(&mut server, &bench, vec![1.0, 2.0]);
    let out = server.create_empty_handle();
    server.register(unary(OperationKind::Neg, input, out, &shape));
    let settled = settle(&mut server, &describe(input, &shape, TensorStatus::ReadOnly));
    assert_eq!(settled, Ok(input));
    assert_eq!(server.stream.len(), 0);
    assert_eq!(value_of(&server, &bench, out), vec![-1.0, -2.0]);

    let stranger = TensorId::new(50);
    server.register(unary(OperationKind::Neg, input, stranger, &shape));
    let settled = settle(&mut server, &describe(input, &shape, TensorStatus::ReadOnly));
    assert_eq!(settled, Err(FusionError::UnknownTensor(stranger)));
    assert_eq!(server.stream.len(), 1);
}

#[test]
fn a_registry_shared_is_the_same_registry() {
    let registry = AutotuneRegistry::new();
    let other = registry.share();
    let (device, bench) = TestDevice::new(4);
    let client = MutexFusionClient::new(device, other);
    let shape = [3usize];
    let input = given(&client, &bench, vec![1.0, 2.0, 3.0], &shape);
    let out = client.tensor_uninitialized(shape.to_vec());
    client.register(unary(OperationKind::Exp, input.id, out.id, &shape));
    client.drain().unwrap();
    assert_eq!(
        registry.autotune_result(&DeviceId::new(0, 4), &AutotuneKey::new(1, &shape)),
        Some(0)
    );
}

#[test]
fn a_server_registers_a_tensor_under_a_fresh_identity() {
    let (mut server, _bench) = server_on(0);
    let empty = server.create_empty_handle();
    let first = server.register_tensor(Handle::new(40));
    let second = server.register_tensor(Handle::new(41));
    assert_eq!(empty, TensorId::new(0));
    assert_eq!(first, TensorId::new(1));
    assert_eq!(second, TensorId::new(2));
    assert_eq!(server.context.handles.storage_of(first), Some(40));
    assert_eq!(server.context.handles.storage_of(second), Some(41));
    assert_eq!(server.context.handles.storage_of(empty), None);
}

#[test]
fn a_destination_stores_exactly_the_bytes_it_is_handed() {
    let (mut server, bench) = server_on(0);
    let bytes: Vec<u8> = [1.5f32, -2.0].iter().flat_map(|v| v.to_le_bytes()).collect();
    let id = server.receive(ElementKind::Float, &vec![2], &bytes).unwrap();
    assert_eq!(id, TensorId::new(0));
    assert_eq!(value_of(&server, &bench, id), vec![1.5, -2.0]);
    assert_eq!(calls_of(&bench), vec![Call::Upload(8)]);
    let reader = server.fetch(&describe(id, &[2], TensorStatus::ReadOnly), ElementKind::Float);
    assert_eq!(reader.unwrap().bytes, bytes);
    let missing = server.fetch(&describe(TensorId::new(5), &[2], TensorStatus::ReadOnly), ElementKind::Int);
    assert_eq!(missing.err(), Some(FusionError::MissingHandle(TensorId::new(5))));
}
