//! One hash request from start to end: look up the algorithm, open the
//! device, upload, plan, dispatch, download, and close the device on every
//! path.
use vstd::prelude::*;

use crate::backend::{BackendDescriptor, DeviceInfo};
use crate::device::{
    close_device, open_device, AllocError, CloseReport, DeviceContext, DeviceInitError,
    TransferError,
};
use crate::dispatch::{dispatch_kernel, run_view, ExecutionError, KernelRun};
use crate::plan::{lemma_plan_sound_and_complete, plan, plan_spec, InputTooLarge};
use crate::registry::{has_id, AlgorithmDescriptor, AlgorithmView, Registry, UnknownAlgorithm};

verus! {

/// Why a hash request failed.
#[derive(Debug)]
pub enum RequestError {
    UnknownAlgorithm(UnknownAlgorithm),
    DeviceInit(DeviceInitError),
    Alloc(AllocError),
    InputTooLarge(InputTooLarge),
    Execution(ExecutionError),
    Transfer(TransferError),
}

/// The stage of a request at which an error arose.
#[derive(Clone, Copy, Debug, PartialEq, Eq, Structural)]
pub enum Stage {
    Algorithm,
    Device,
    Alloc,
    Plan,
    Execution,
    Transfer,
}

/// The stage that `e` comes from.
pub open spec fn stage_of(e: RequestError) -> Stage {
    match e {
        RequestError::UnknownAlgorithm(_) => Stage::Algorithm,
        RequestError::DeviceInit(_) => Stage::Device,
        RequestError::Alloc(_) => Stage::Alloc,
        RequestError::InputTooLarge(_) => Stage::Plan,
        RequestError::Execution(_) => Stage::Execution,
        RequestError::Transfer(_) => Stage::Transfer,
    }
}

/// The digest of a request, and the buffer counts of its device context when
/// one was opened.
#[derive(Debug)]
pub struct RequestOutcome {
    pub digest: Result<Vec<u8>, RequestError>,
    pub report: Option<CloseReport>,
}

/// The descriptor registered under `id` in `entries`.
pub open spec fn algorithm_for(entries: Seq<AlgorithmView>, id: Seq<char>) -> AlgorithmView {
    choose|a: AlgorithmView| entries.contains(a) && a.id == id
}

/// The device a request opens: `index`, or the first.
pub open spec fn chosen_device(index: Option<usize>) -> int {
    match index {
        Some(i) => i as int,
        None => 0,
    }
}

/// What a request returns: the digest of the kernel run, or the stage that
/// fails first.
pub open spec fn request_spec(
    entries: Seq<AlgorithmView>,
    id: Seq<char>,
    devices: Seq<DeviceInfo>,
    index: Option<usize>,
    input_len: nat,
    memory_bytes: nat,
    run: Option<Seq<u8>>,
) -> Result<Seq<u8>, Stage> {
    let alg = algorithm_for(entries, id);
    let i = chosen_device(index);
    if !has_id(entries, id) {
        Err(Stage::Algorithm)
    } else if !(0 <= i < devices.len()) {
        Err(Stage::Device)
    } else if input_len + alg.output_size_bytes > memory_bytes {
        Err(Stage::Alloc)
    } else if plan_spec(input_len as u64, devices[i].limits) is Err {
        Err(Stage::Plan)
    } else {
        match run {
            Some(d) => if d.len() == alg.output_size_bytes {
                Ok(d)
            } else {
                Err(Stage::Execution)
            },
            None => Err(Stage::Execution),
        }
    }
}

/// The abstract value of a request's digest.
pub open spec fn digest_view(r: Result<Vec<u8>, RequestError>) -> Result<Seq<u8>, Stage> {
    match r {
        Ok(v) => Ok(v@),
        Err(e) => Err(stage_of(e)),
    }
}

/// Upload, allocate, plan, dispatch and download on an open context.
fn run_on_context(ctx: &mut DeviceContext, alg: &AlgorithmDescriptor, input: &[u8], run: KernelRun) -> (r:
    Result<Vec<u8>, RequestError>)
    requires
        old(ctx).wf(),
        old(ctx).used() == 0,
        old(ctx).acquired() == 0,
    ensures
        final(ctx).wf(),
        digest_view(r) == ({
            if input@.len() + alg@.output_size_bytes > old(ctx).capacity() {
                Err(Stage::Alloc)
            } else if plan_spec(input@.len() as u64, old(ctx).device().limits) is Err {
                Err(Stage::Plan)
            } else {
                match run_view(&run) {
                    Some(d) => if d.len() == alg@.output_size_bytes {
                        Ok(d)
                    } else {
                        Err(Stage::Execution)
                    },
                    None => Err(Stage::Execution),
                }
            }
        }),
{
    let in_buf = match ctx.upload(input) {
        Ok(b) => b,
        Err(e) => return Err(RequestError::Alloc(e)),
    };
    let out_buf = match ctx.alloc_output(alg.output_size_bytes) {
        Ok(b) => b,
        Err(e) => return Err(RequestError::Alloc(e)),
    };
    let limits = ctx.limits();
    let config = match plan(input.len() as u64, limits) {
        Ok(c) => c,
        Err(e) => return Err(RequestError::InputTooLarge(e)),
    };
    proof {
        lemma_plan_sound_and_complete(input@.len() as u64, limits);
    }
    match dispatch_kernel(ctx, alg, &in_buf, &out_buf, config, run) {
        Ok(()) => {},
        Err(e) => return Err(RequestError::Execution(e)),
    }
    match ctx.download(&out_buf) {
        Ok(v) => Ok(v),
        Err(e) => Err(RequestError::Transfer(e)),
    }
}

/// Hashes `input` with the algorithm registered as `algorithm` on device
/// `device_index` (the first when `None`) of `desc`, which has `memory_bytes`
/// free; `run` is what the backend's kernel produced. The device context is
/// closed on every path once it was opened, with every buffer released.
pub fn hash_request(
    registry: &Registry,
    algorithm: &String,
    desc: &BackendDescriptor,
    device_index: Option<usize>,
    input: &[u8],
    memory_bytes: usize,
    run: KernelRun,
) -> (r: RequestOutcome)
    requires
        registry.wf(),
    ensures
        digest_view(r.digest) == request_spec(
            registry.entries(),
            algorithm@,
            desc.devices@,
            device_index,
            input@.len(),
            memory_bytes as nat,
            run_view(&run),
        ),
        r.report is Some <==> has_id(registry.entries(), algorithm@) && 0 <= chosen_device(
            device_index,
        ) < desc.devices@.len(),
        r.report matches Some(rep) ==> rep.buffers_released == rep.buffers_acquired,
{
    let alg = match registry.lookup(algorithm) {
        Ok(a) => a,
        Err(e) => return RequestOutcome { digest: Err(RequestError::UnknownAlgorithm(e)), report: None },
    };
    proof {
        let entries = registry.entries();
        let chosen = algorithm_for(entries, algorithm@);
        let k = choose|k: int| 0 <= k < entries.len() && entries[k] == alg@;
        assert(entries.contains(alg@));
        let j = choose|j: int| 0 <= j < entries.len() && entries[j] == chosen;
        assert(j == k);
    }
    let mut ctx = match open_device(desc, device_index, memory_bytes) {
        Ok(c) => c,
        Err(e) => return RequestOutcome { digest: Err(RequestError::DeviceInit(e)), report: None },
    };
    let digest = run_on_context(&mut ctx, &alg, input, run);
    let report = close_device(ctx);
    RequestOutcome { digest, report: Some(report) }
}

/// A successful request yields exactly as many bytes as the algorithm's
/// digest size, whatever the input length, the empty input included.
pub proof fn lemma_digest_length(
    entries: Seq<AlgorithmView>,
    id: Seq<char>,
    devices: Seq<DeviceInfo>,
    index: Option<usize>,
    input_len: nat,
    memory_bytes: nat,
    run: Option<Seq<u8>>,
)
    ensures
        request_spec(entries, id, devices, index, input_len, memory_bytes, run) matches Ok(d)
            ==> d.len() == algorithm_for(entries, id).output_size_bytes,
{
}

/// Two successful requests of the same algorithm on the same bytes, whose
/// kernels produce the same digest for those bytes, give identical results,
/// whichever backend, device, limits and memory each one ran with.
pub proof fn lemma_determinism(
    entries: Seq<AlgorithmView>,
    id: Seq<char>,
    input_len: nat,
    run: Option<Seq<u8>>,
    devices1: Seq<DeviceInfo>,
    index1: Option<usize>,
    memory1: nat,
    devices2: Seq<DeviceInfo>,
    index2: Option<usize>,
    memory2: nat,
)
    requires
        request_spec(entries, id, devices1, index1, input_len, memory1, run) is Ok,
        request_spec(entries, id, devices2, index2, input_len, memory2, run) is Ok,
    ensures
        request_spec(entries, id, devices1, index1, input_len, memory1, run) == request_spec(
            entries,
            id,
            devices2,
            index2,
            input_len,
            memory2,
            run,
        ),
{
}

} // verus!
