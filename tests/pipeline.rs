use hashcalc_gpu::backend::{
    candidate_list, next_probe, probe_opencl, probe_outcome, select_from, BackendDescriptor,
    BackendKind, DeviceInfo, GpuBackend, ProbeOutcome, Unavailable,
};
use hashcalc_gpu::device::{close_device, open_device, BufferRole, DeviceInitError, TransferError};
use hashcalc_gpu::dispatch::{dispatch_kernel, ExecutionError, KernelRun};
use hashcalc_gpu::plan::{plan, DeviceLimits, InputTooLarge, LaunchConfig, PREFERRED_BLOCK_SIZE};
use hashcalc_gpu::registry::{AlgorithmDescriptor, Registry};
use hashcalc_gpu::request::{hash_request, RequestError};

fn limits(threads: u32, grid: u32) -> DeviceLimits {
    DeviceLimits { max_threads_per_block: threads, max_grid_dimension: grid, shared_memory_bytes: 49152 }
}

fn gpu(kind: BackendKind, threads: u32, grid: u32) -> BackendDescriptor {
    BackendDescriptor { kind, devices: vec![DeviceInfo { ordinal: 0, limits: limits(threads, grid) }] }
}

fn md5_of_empty() -> Vec<u8> {
    vec![
        0xd4, 0x1d, 0x8c, 0xd9, 0x8f, 0x00, 0xb2, 0x04, 0xe9, 0x80, 0x09, 0x98, 0xec, 0xf8, 0x42, 0x7e,
    ]
}

fn sha256_of_abc() -> Vec<u8> {
    vec![
        0xba, 0x78, 0x16, 0xbf, 0x8f, 0x01, 0xcf, 0xea, 0x41, 0x41, 0x40, 0xde, 0x5d, 0xae, 0x22, 0x23,
        0xb0, 0x03, 0x61, 0xa3, 0x96, 0x17, 0x7a, 0x9c, 0xb4, 0x10, 0xff, 0x61, 0xf2, 0x00, 0x15, 0xad,
    ]
}

#[test]
fn plan_empty_input_has_one_block() {
    let c = plan(0, limits(1024, 65535)).unwrap();
    assert_eq!(c, LaunchConfig { block_size: PREFERRED_BLOCK_SIZE, grid_size: 1 });
}

#[test]
fn plan_rounds_grid_up() {
    assert_eq!(plan(1000, limits(1024, 65535)), Ok(LaunchConfig { block_size: 128, grid_size: 8 }));
    assert_eq!(plan(1024, limits(1024, 65535)), Ok(LaunchConfig { block_size: 128, grid_size: 8 }));
    assert_eq!(plan(1, limits(1024, 65535)), Ok(LaunchConfig { block_size: 128, grid_size: 1 }));
}

#[test]
fn plan_clamps_block_to_device() {
    assert_eq!(plan(100, limits(32, 65535)), Ok(LaunchConfig { block_size: 32, grid_size: 4 }));
}

#[test]
fn plan_uses_largest_block_when_grid_is_short() {
    assert_eq!(plan(1000, limits(1024, 2)), Ok(LaunchConfig { block_size: 1024, grid_size: 1 }));
}

#[test]
fn plan_reports_input_too_large() {
    assert_eq!(plan(9, limits(4, 2)), Err(InputTooLarge { input_length: 9 }));
    assert_eq!(plan(8, limits(4, 2)), Ok(LaunchConfig { block_size: 4, grid_size: 2 }));
    assert_eq!(plan(0, limits(0, 10)), Err(InputTooLarge { input_length: 0 }));
    assert_eq!(plan(5, limits(10, 0)), Err(InputTooLarge { input_length: 5 }));
}

#[test]
fn plan_is_pure() {
    for len in [0u64, 1, 127, 128, 129, 1 << 20, u64::MAX] {
        let l = limits(1024, 65535);
        assert_eq!(plan(len, l), plan(len, l));
        if let Ok(c) = plan(len, l) {
            assert!((c.grid_size as u128) * (c.block_size as u128) >= len as u128);
            assert!(c.block_size <= l.max_threads_per_block);
        }
    }
}

#[test]
fn candidates_follow_priority() {
    assert_eq!(candidate_list(GpuBackend::Auto), vec![BackendKind::Cuda, BackendKind::OpenCl]);
    assert_eq!(candidate_list(GpuBackend::Cuda), vec![BackendKind::Cuda]);
    assert_eq!(candidate_list(GpuBackend::Opencl), vec![BackendKind::OpenCl]);
}

#[test]
fn probe_needs_runtime_and_device() {
    assert_eq!(probe_outcome(BackendKind::Cuda, false, vec![]).unwrap_err(), Unavailable { kind: BackendKind::Cuda });
    let d = gpu(BackendKind::Cuda, 1024, 65535).devices;
    assert!(probe_outcome(BackendKind::Cuda, false, d.clone()).is_err());
    assert!(probe_outcome(BackendKind::Cuda, true, vec![]).is_err());
    let ok = probe_outcome(BackendKind::Cuda, true, d.clone()).unwrap();
    assert_eq!(ok.kind, BackendKind::Cuda);
    assert_eq!(ok.devices, d);
}

#[test]
fn opencl_probe_without_devices_is_unavailable() {
    assert_eq!(probe_opencl(vec![]).unwrap_err(), Unavailable { kind: BackendKind::OpenCl });
}

#[test]
fn auto_falls_back_to_opencl() {
    let mut outs: Vec<ProbeOutcome> = Vec::new();
    assert_eq!(next_probe(GpuBackend::Auto, &outs), Some(BackendKind::Cuda));
    outs.push(Err(Unavailable { kind: BackendKind::Cuda }));
    assert_eq!(next_probe(GpuBackend::Auto, &outs), Some(BackendKind::OpenCl));
    outs.push(Ok(gpu(BackendKind::OpenCl, 256, 65535)));
    assert_eq!(next_probe(GpuBackend::Auto, &outs), None);
    let d = select_from(GpuBackend::Auto, &outs).unwrap();
    assert_eq!(d.kind, BackendKind::OpenCl);
    assert_eq!(d.devices[0].limits.max_threads_per_block, 256);
}

#[test]
fn auto_prefers_cuda_when_it_works() {
    let outs: Vec<ProbeOutcome> = vec![Ok(gpu(BackendKind::Cuda, 1024, 65535))];
    assert_eq!(next_probe(GpuBackend::Auto, &outs), None);
    assert_eq!(select_from(GpuBackend::Auto, &outs).unwrap().kind, BackendKind::Cuda);
}

#[test]
fn hello_cuda_hash_without_gpu_is_terminal() {
    let input = b"hello, cuda hash!";
    assert_eq!(input.len(), 17);
    let outs: Vec<ProbeOutcome> = vec![
        Err(Unavailable { kind: BackendKind::Cuda }),
        Err(Unavailable { kind: BackendKind::OpenCl }),
    ];
    assert_eq!(next_probe(GpuBackend::Auto, &outs), None);
    let e = select_from(GpuBackend::Auto, &outs).unwrap_err();
    assert_eq!(e.attempted, vec![BackendKind::Cuda, BackendKind::OpenCl]);
}

#[test]
fn explicit_backend_names_only_itself() {
    let outs: Vec<ProbeOutcome> = vec![Err(Unavailable { kind: BackendKind::Cuda })];
    assert_eq!(next_probe(GpuBackend::Cuda, &outs), None);
    assert_eq!(select_from(GpuBackend::Cuda, &outs).unwrap_err().attempted, vec![BackendKind::Cuda]);
    let none: Vec<ProbeOutcome> = vec![];
    assert_eq!(select_from(GpuBackend::Opencl, &none).unwrap_err().attempted, vec![]);
}

#[test]
fn registry_lookup_and_conflicts() {
    let mut r = Registry::standard();
    let sha = r.lookup(&"sha256".to_string()).unwrap();
    assert_eq!(sha.output_size_bytes, 32);
    assert_eq!(r.lookup(&"md5".to_string()).unwrap().output_size_bytes, 16);
    let e = r.lookup(&"crc32".to_string()).unwrap_err();
    assert_eq!(e.id, "crc32");
    assert!(r.register(sha.duplicate()).is_ok());
    let other = AlgorithmDescriptor {
        id: "md5".to_string(),
        output_size_bytes: 20,
        block_bytes: 64,
        kernel_entry: "md5_kernel".to_string(),
    };
    assert_eq!(r.register(other).unwrap_err().id, "md5");
    assert_eq!(r.lookup(&"md5".to_string()).unwrap().output_size_bytes, 16);
    let crc = AlgorithmDescriptor {
        id: "crc32".to_string(),
        output_size_bytes: 4,
        block_bytes: 1,
        kernel_entry: "crc32_kernel".to_string(),
    };
    assert!(r.register(crc).is_ok());
    assert_eq!(r.lookup(&"crc32".to_string()).unwrap().output_size_bytes, 4);
}

#[test]
fn open_device_picks_index() {
    let mut d = gpu(BackendKind::Cuda, 1024, 65535);
    d.devices.push(DeviceInfo { ordinal: 1, limits: limits(512, 100) });
    let c = open_device(&d, None, 100).ok().unwrap();
    assert_eq!(c.limits().max_threads_per_block, 1024);
    let c1 = open_device(&d, Some(1), 100).ok().unwrap();
    assert_eq!(c1.limits().max_threads_per_block, 512);
    assert_eq!(c1.backend(), BackendKind::Cuda);
    assert_eq!(open_device(&d, Some(2), 100).err(), Some(DeviceInitError::NoSuchDevice { index: 2 }));
}

#[test]
fn buffers_round_trip_and_stale_handles_fail() {
    let d = gpu(BackendKind::OpenCl, 256, 65535);
    let mut c = open_device(&d, None, 10).ok().unwrap();
    let empty = c.upload(&[]).unwrap();
    assert_eq!(empty.len, 0);
    assert_eq!(c.download(&empty).unwrap(), Vec::<u8>::new());
    let b = c.upload(&[1, 2, 3]).unwrap();
    assert_eq!(b.role, BufferRole::Input);
    assert_eq!(c.download(&b).unwrap(), vec![1, 2, 3]);
    assert_eq!(c.available(), 7);
    let e = c.alloc_output(8).unwrap_err();
    assert_eq!((e.requested, e.available), (8, 7));
    let o = c.alloc_output(7).unwrap();
    assert_eq!(c.download(&o).unwrap().len(), 7);
    assert_eq!(c.release(&b), Ok(()));
    assert_eq!(c.available(), 3);
    assert_eq!(c.download(&b), Err(TransferError::InvalidHandle));
    assert_eq!(c.release(&b), Err(TransferError::InvalidHandle));
    let report = close_device(c);
    assert_eq!(report.buffers_acquired, 3);
    assert_eq!(report.buffers_released, 3);
    assert_eq!(report.released_at_close, 2);
}

#[test]
fn dispatch_checks_launch_and_digest() {
    let d = gpu(BackendKind::Cuda, 1024, 65535);
    let reg = Registry::standard();
    let md5 = reg.lookup(&"md5".to_string()).unwrap();
    let mut c = open_device(&d, None, 1000).ok().unwrap();
    let i = c.upload(b"abc").unwrap();
    let o = c.alloc_output(16).unwrap();
    let cfg = plan(3, c.limits()).unwrap();
    assert_eq!(dispatch_kernel(&mut c, &md5, &o, &o, cfg, KernelRun::Failed), Err(ExecutionError::InvalidInput));
    assert_eq!(dispatch_kernel(&mut c, &md5, &i, &i, cfg, KernelRun::Failed), Err(ExecutionError::InvalidOutput));
    let bad = LaunchConfig { block_size: 2048, grid_size: 1 };
    assert_eq!(dispatch_kernel(&mut c, &md5, &i, &o, bad, KernelRun::Failed), Err(ExecutionError::InvalidLaunch));
    let short = LaunchConfig { block_size: 1, grid_size: 2 };
    assert_eq!(dispatch_kernel(&mut c, &md5, &i, &o, short, KernelRun::Failed), Err(ExecutionError::InvalidLaunch));
    assert_eq!(dispatch_kernel(&mut c, &md5, &i, &o, cfg, KernelRun::Failed), Err(ExecutionError::LaunchFailed));
    assert_eq!(
        dispatch_kernel(&mut c, &md5, &i, &o, cfg, KernelRun::Completed(vec![1, 2])),
        Err(ExecutionError::WrongDigestLength)
    );
    let digest: Vec<u8> = (0u8..16).collect();
    assert_eq!(dispatch_kernel(&mut c, &md5, &i, &o, cfg, KernelRun::Completed(digest.clone())), Ok(()));
    assert_eq!(c.download(&o).unwrap(), digest);
    assert_eq!(c.download(&i).unwrap(), b"abc".to_vec());
    let report = close_device(c);
    assert_eq!(report.buffers_released, report.buffers_acquired);
}

#[test]
fn empty_md5_on_explicit_cuda() {
    let outs: Vec<ProbeOutcome> = vec![Ok(gpu(BackendKind::Cuda, 1024, 65535))];
    let desc = select_from(GpuBackend::Cuda, &outs).unwrap();
    assert!(plan(0, desc.devices[0].limits).unwrap().grid_size >= 1);
    let reg = Registry::standard();
    let out = hash_request(&reg, &"md5".to_string(), &desc, None, &[], 1 << 20, KernelRun::Completed(md5_of_empty()));
    let digest = out.digest.unwrap();
    assert_eq!(digest.len(), 16);
    assert_eq!(digest, md5_of_empty());
    let report = out.report.unwrap();
    assert_eq!(report.buffers_acquired, 2);
    assert_eq!(report.buffers_released, 2);
}

#[test]
fn same_bytes_same_digest_on_any_backend() {
    let reg = Registry::standard();
    let id = "sha256".to_string();
    let a = hash_request(&reg, &id, &gpu(BackendKind::Cuda, 1024, 65535), None, b"abc", 4096, KernelRun::Completed(sha256_of_abc()));
    let b = hash_request(&reg, &id, &gpu(BackendKind::OpenCl, 2, 2), None, b"abc", 64, KernelRun::Completed(sha256_of_abc()));
    let da = a.digest.unwrap();
    assert_eq!(da, b.digest.unwrap());
    assert_eq!(da.len(), 32);
}

#[test]
fn request_errors_by_stage() {
    let reg = Registry::standard();
    let d = gpu(BackendKind::Cuda, 4, 2);
    let md5 = "md5".to_string();
    let r = hash_request(&reg, &"sha1".to_string(), &d, None, b"x", 100, KernelRun::Failed);
    assert!(matches!(r.digest, Err(RequestError::UnknownAlgorithm(_))));
    assert!(r.report.is_none());
    let r = hash_request(&reg, &md5, &d, Some(3), b"x", 100, KernelRun::Failed);
    assert!(matches!(r.digest, Err(RequestError::DeviceInit(DeviceInitError::NoSuchDevice { index: 3 }))));
    assert!(r.report.is_none());
    let r = hash_request(&reg, &md5, &d, None, b"x", 16, KernelRun::Failed);
    assert!(matches!(r.digest, Err(RequestError::Alloc(_))));
    let rep = r.report.unwrap();
    assert_eq!(rep.buffers_released, rep.buffers_acquired);
    let r = hash_request(&reg, &md5, &d, None, b"123456789", 100, KernelRun::Completed(md5_of_empty()));
    assert!(matches!(r.digest, Err(RequestError::InputTooLarge(InputTooLarge { input_length: 9 }))));
    let rep = r.report.unwrap();
    assert_eq!((rep.buffers_acquired, rep.buffers_released), (2, 2));
    let r = hash_request(&reg, &md5, &d, None, b"x", 100, KernelRun::Failed);
    assert!(matches!(r.digest, Err(RequestError::Execution(ExecutionError::LaunchFailed))));
    let r = hash_request(&reg, &md5, &d, None, b"x", 100, KernelRun::Completed(vec![0; 15]));
    assert!(matches!(r.digest, Err(RequestError::Execution(ExecutionError::WrongDigestLength))));
    assert_eq!(r.report.unwrap().buffers_released, 2);
}
