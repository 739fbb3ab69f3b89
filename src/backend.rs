//! Backend capability probe and backend selection.
use vstd::prelude::*;

use crate::plan::DeviceLimits;

verus! {

/// A compute backend that the library can drive.
#[derive(Clone, Copy, Debug, PartialEq, Eq, Structural)]
pub enum BackendKind {
    Cuda,
    OpenCl,
}

/// How the caller asks for a backend: the first that works in priority
/// order, or exactly one.
#[derive(Clone, Copy, Debug, PartialEq, Eq, Structural)]
pub enum GpuBackend {
    Auto,
    Cuda,
    Opencl,
}

/// One device that a probe discovered.
#[derive(Clone, Copy, Debug, PartialEq, Eq, Structural)]
pub struct DeviceInfo {
    pub ordinal: u32,
    pub limits: DeviceLimits,
}

/// A backend whose runtime initialised and which exposes at least one device.
#[derive(Debug)]
pub struct BackendDescriptor {
    pub kind: BackendKind,
    pub devices: Vec<DeviceInfo>,
}

/// The probe of `kind` failed: no runtime, or no device.
#[derive(Clone, Copy, Debug, PartialEq, Eq, Structural)]
pub struct Unavailable {
    pub kind: BackendKind,
}

/// Every backend that was tried failed its probe.
#[derive(Debug)]
pub struct NoBackendAvailable {
    pub attempted: Vec<BackendKind>,
}

pub type ProbeOutcome = Result<BackendDescriptor, Unavailable>;

/// The backends tried for a request, in the order they are tried: CUDA before
/// OpenCL under `Auto`.
pub open spec fn candidates(mode: GpuBackend) -> Seq<BackendKind> {
    match mode {
        GpuBackend::Auto => seq![BackendKind::Cuda, BackendKind::OpenCl],
        GpuBackend::Cuda => seq![BackendKind::Cuda],
        GpuBackend::Opencl => seq![BackendKind::OpenCl],
    }
}

/// What a probe of `kind` yields from whether its runtime initialised and the
/// devices it lists.
pub open spec fn probe_spec(kind: BackendKind, runtime_ok: bool, devices: Seq<DeviceInfo>) -> Result<
    (BackendKind, Seq<DeviceInfo>),
    Unavailable,
> {
    if runtime_ok && devices.len() > 0 {
        Ok((kind, devices))
    } else {
        Err(Unavailable { kind })
    }
}

/// The abstract value of a probe outcome.
pub open spec fn outcome_view(o: ProbeOutcome) -> Result<(BackendKind, Seq<DeviceInfo>), Unavailable> {
    match o {
        Ok(d) => Ok((d.kind, d.devices@)),
        Err(u) => Err(u),
    }
}

/// Index of the first successful probe among `outs`, if any.
pub open spec fn first_success(outs: Seq<ProbeOutcome>) -> Option<int>
    decreases outs.len(),
{
    if outs.len() == 0 {
        None
    } else if outs[0] is Ok {
        Some(0)
    } else {
        match first_success(outs.drop_first()) {
            Some(i) => Some(i + 1),
            None => None,
        }
    }
}

/// The list of backends for `mode`, in priority order.
pub fn candidate_list(mode: GpuBackend) -> (r: Vec<BackendKind>)
    ensures
        r@ == candidates(mode),
{
    match mode {
        GpuBackend::Auto => vec![BackendKind::Cuda, BackendKind::OpenCl],
        GpuBackend::Cuda => vec![BackendKind::Cuda],
        GpuBackend::Opencl => vec![BackendKind::OpenCl],
    }
}

/// Decides a probe of `kind`: available when the runtime initialised and at
/// least one device was found.
pub fn probe_outcome(kind: BackendKind, runtime_ok: bool, devices: Vec<DeviceInfo>) -> (r: ProbeOutcome)
    ensures
        outcome_view(r) == probe_spec(kind, runtime_ok, devices@),
{
    if runtime_ok && devices.len() > 0 {
        Ok(BackendDescriptor { kind, devices })
    } else {
        Err(Unavailable { kind })
    }
}

/// The backend to probe next after the outcomes `outs` of the first probes
/// of `candidates(mode)`: none once one succeeded or all were tried.
pub open spec fn next_probe_spec(mode: GpuBackend, outs: Seq<ProbeOutcome>) -> Option<BackendKind> {
    if first_success(outs) is Some || outs.len() >= candidates(mode).len() {
        None
    } else {
        Some(candidates(mode)[outs.len() as int])
    }
}

/// The selection made from the outcomes `outs` of the first probes of
/// `candidates(mode)`: the first success, or the list of backends tried.
pub open spec fn select_spec(mode: GpuBackend, outs: Seq<ProbeOutcome>) -> Result<
    (BackendKind, Seq<DeviceInfo>),
    Seq<BackendKind>,
> {
    match first_success(outs) {
        Some(i) => Ok(outcome_view(outs[i])->Ok_0),
        None => Err(candidates(mode).take(outs.len() as int)),
    }
}

/// The abstract value of a selection.
pub open spec fn selection_view(r: Result<BackendDescriptor, NoBackendAvailable>) -> Result<
    (BackendKind, Seq<DeviceInfo>),
    Seq<BackendKind>,
> {
    match r {
        Ok(d) => Ok((d.kind, d.devices@)),
        Err(e) => Err(e.attempted@),
    }
}

proof fn lemma_first_success_bounds(outs: Seq<ProbeOutcome>)
    ensures
        first_success(outs) matches Some(i) ==> 0 <= i < outs.len() && outs[i] is Ok && forall|
            j: int,
        |
            0 <= j < i ==> outs[j] is Err,
        first_success(outs) is None ==> forall|j: int| 0 <= j < outs.len() ==> outs[j] is Err,
    decreases outs.len(),
{
    if outs.len() > 0 && outs[0] is Err {
        lemma_first_success_bounds(outs.drop_first());
        assert forall|j: int| 1 <= j < outs.len() implies outs[j] == outs.drop_first()[j - 1] by {}
    }
}

/// An element-wise copy of a device list.
pub fn copy_devices(devices: &Vec<DeviceInfo>) -> (r: Vec<DeviceInfo>)
    ensures
        r@ == devices@,
{
    let mut r: Vec<DeviceInfo> = Vec::new();
    let mut i: usize = 0;
    while i < devices.len()
        invariant
            i <= devices@.len(),
            r@ == devices@.take(i as int),
        decreases devices.len() - i,
    {
        r.push(devices[i]);
        i = i + 1;
        assert(r@ =~= devices@.take(i as int));
    }
    assert(r@ =~= devices@);
    r
}

/// Finds the first successful probe, scanning in order.
fn find_first_success(outs: &Vec<ProbeOutcome>) -> (r: Option<usize>)
    ensures
        r matches Some(i) ==> first_success(outs@) == Some(i as int) && i < outs@.len(),
        r is None ==> first_success(outs@) is None,
{
    proof {
        lemma_first_success_bounds(outs@);
    }
    let mut i: usize = 0;
    while i < outs.len()
        invariant
            i <= outs@.len(),
            forall|j: int| 0 <= j < i ==> outs@[j] is Err,
        decreases outs.len() - i,
    {
        if outs[i].is_ok() {
            proof {
                lemma_first_success_bounds(outs@);
                assert(outs@[i as int] is Ok);
                match first_success(outs@) {
                    Some(k) => {
                        if k < i {
                            assert(outs@[k] is Err);
                        } else if k > i {
                            assert(outs@[i as int] is Err);
                        }
                    },
                    None => {
                        assert(outs@[i as int] is Err);
                    },
                }
            }
            return Some(i);
        }
        i = i + 1;
    }
    proof {
        lemma_first_success_bounds(outs@);
        if first_success(outs@) is Some {
            let k = first_success(outs@)->Some_0;
            assert(outs@[k] is Err);
        }
    }
    None
}

/// The backend to probe next, given the outcomes of the probes made so far in
/// the order of `candidates(mode)`.
pub fn next_probe(mode: GpuBackend, outs: &Vec<ProbeOutcome>) -> (r: Option<BackendKind>)
    ensures
        r == next_probe_spec(mode, outs@),
{
    let cands = candidate_list(mode);
    let found = find_first_success(outs);
    if found.is_some() || outs.len() >= cands.len() {
        None
    } else {
        Some(cands[outs.len()])
    }
}

/// Selects a backend from the outcomes of the probes made so far, in the
/// order of `candidates(mode)`: the first that succeeded, or
/// `NoBackendAvailable` naming every backend tried.
pub fn select_from(mode: GpuBackend, outs: &Vec<ProbeOutcome>) -> (r: Result<
    BackendDescriptor,
    NoBackendAvailable,
>)
    requires
        outs@.len() <= candidates(mode).len(),
    ensures
        selection_view(r) == select_spec(mode, outs@),
{
    let cands = candidate_list(mode);
    proof {
        lemma_first_success_bounds(outs@);
    }
    match find_first_success(outs) {
        Some(i) => {
            match &outs[i] {
                Ok(d) => Ok(BackendDescriptor { kind: d.kind, devices: copy_devices(&d.devices) }),
                Err(u) => Err(NoBackendAvailable { attempted: vec![u.kind] }),
            }
        },
        None => {
            let mut attempted: Vec<BackendKind> = Vec::new();
            let mut k: usize = 0;
            while k < outs.len()
                invariant
                    k <= outs@.len(),
                    outs@.len() <= cands@.len(),
                    cands@ == candidates(mode),
                    attempted@ == cands@.take(k as int),
                decreases outs.len() - k,
            {
                attempted.push(cands[k]);
                k = k + 1;
                assert(attempted@ =~= cands@.take(k as int));
            }
            Err(NoBackendAvailable { attempted })
        },
    }
}

#[verifier::external_type_specification]
#[verifier::external_body]
pub struct ExPlatform(opencl3::platform::Platform);

/// Relies on `opencl3::platform::get_platforms`: the platforms that the
/// OpenCL runtime lists, or an error (here `None`) when the runtime cannot be
/// loaded or queried. Which of the two comes depends on the machine.
#[verifier::external_body]
fn opencl_platforms() -> (r: Option<Vec<opencl3::platform::Platform>>) {
    opencl3::platform::get_platforms().ok()
}

/// Probes the OpenCL backend: its runtime counts as initialised when it
/// lists at least one platform; `devices` are the devices found on them.
pub fn probe_opencl(devices: Vec<DeviceInfo>) -> (r: ProbeOutcome)
    ensures
        exists|runtime_ok: bool|
            outcome_view(r) == probe_spec(BackendKind::OpenCl, runtime_ok, devices@),
        devices@.len() == 0 ==> r is Err,
{
    let platforms = opencl_platforms();
    let runtime_ok = match &platforms {
        Some(p) => p.len() > 0,
        None => false,
    };
    let r = probe_outcome(BackendKind::OpenCl, runtime_ok, devices);
    assert(outcome_view(r) == probe_spec(BackendKind::OpenCl, runtime_ok, devices@));
    r
}

/// Under automatic selection a failed CUDA probe leads to an OpenCL probe,
/// and when that one succeeds its descriptor is selected.
pub proof fn lemma_fallback_ordering(cuda: ProbeOutcome, opencl: ProbeOutcome)
    requires
        cuda is Err,
        opencl is Ok,
    ensures
        next_probe_spec(GpuBackend::Auto, seq![cuda]) == Some(BackendKind::OpenCl),
        select_spec(GpuBackend::Auto, seq![cuda, opencl]) is Ok && select_spec(
            GpuBackend::Auto,
            seq![cuda, opencl],
        )->Ok_0 == outcome_view(opencl)->Ok_0,
{
    let one = seq![cuda];
    let two = seq![cuda, opencl];
    assert(one.drop_first() =~= Seq::<ProbeOutcome>::empty());
    assert(two.drop_first() =~= seq![opencl]);
    assert(two.drop_first().drop_first() =~= Seq::<ProbeOutcome>::empty());
    assert(first_success(Seq::<ProbeOutcome>::empty()) is None);
    assert(one[0] is Err);
    assert(first_success(one) is None);
    assert(two[0] is Err && two.drop_first()[0] is Ok);
    assert(first_success(seq![opencl]) == Some(0int));
    assert(first_success(two) == Some(1int));
}

} // verus!
