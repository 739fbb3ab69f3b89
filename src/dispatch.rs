//! Kernel dispatcher: checks a launch against the context and the algorithm,
//! and stores what the kernel produced in the output buffer.
use vstd::prelude::*;

use crate::device::{BufferRole, DeviceBuffer, DeviceContext};
use crate::plan::{valid_config, LaunchConfig};
use crate::registry::{AlgorithmDescriptor, AlgorithmView};

verus! {

/// What the backend reported once the launched kernel had finished and the
/// device had been synchronised: the digest it wrote, or a failure.
#[derive(Debug)]
pub enum KernelRun {
    Completed(Vec<u8>),
    Failed,
}

/// Why a dispatch did not produce a digest.
#[derive(Clone, Copy, Debug, PartialEq, Eq, Structural)]
pub enum ExecutionError {
    /// The input handle is stale or is not an input buffer.
    InvalidInput,
    /// The output handle is stale, not an output buffer, or not sized to the digest.
    InvalidOutput,
    /// The configuration breaks the device limits or does not cover the input.
    InvalidLaunch,
    /// The kernel failed to launch or to run to completion.
    LaunchFailed,
    /// The kernel produced a digest of the wrong length.
    WrongDigestLength,
}

/// The abstract value of a kernel run: the digest, when it completed.
pub open spec fn run_view(run: &KernelRun) -> Option<Seq<u8>> {
    match run {
        KernelRun::Completed(d) => Some(d@),
        KernelRun::Failed => None,
    }
}

/// The error a dispatch reports, checked in this order, or `None` when it
/// succeeds.
pub open spec fn dispatch_error(
    ctx: DeviceContext,
    alg: AlgorithmView,
    input: DeviceBuffer,
    output: DeviceBuffer,
    config: LaunchConfig,
    run: Option<Seq<u8>>,
) -> Option<ExecutionError> {
    if !(ctx.is_live(input) && input.role == BufferRole::Input) {
        Some(ExecutionError::InvalidInput)
    } else if !(ctx.is_live(output) && output.role == BufferRole::Output && output.len
        == alg.output_size_bytes && output.slot != input.slot) {
        Some(ExecutionError::InvalidOutput)
    } else if !valid_config(config, input.len as nat, ctx.device().limits) {
        Some(ExecutionError::InvalidLaunch)
    } else {
        match run {
            None => Some(ExecutionError::LaunchFailed),
            Some(d) => if d.len() != alg.output_size_bytes {
                Some(ExecutionError::WrongDigestLength)
            } else {
                None
            },
        }
    }
}

/// Binds `alg` to the context: checks the buffers and the configuration, and
/// on success stores the digest of `run` in `output`. On an error the context
/// is unchanged.
pub fn dispatch_kernel(
    ctx: &mut DeviceContext,
    alg: &AlgorithmDescriptor,
    input: &DeviceBuffer,
    output: &DeviceBuffer,
    config: LaunchConfig,
    run: KernelRun,
) -> (r: Result<(), ExecutionError>)
    requires
        old(ctx).wf(),
    ensures
        final(ctx).wf(),
        final(ctx).kind() == old(ctx).kind(),
        final(ctx).device() == old(ctx).device(),
        final(ctx).capacity() == old(ctx).capacity(),
        final(ctx).used() == old(ctx).used(),
        final(ctx).acquired() == old(ctx).acquired(),
        final(ctx).released() == old(ctx).released(),
        match dispatch_error(*old(ctx), alg@, *input, *output, config, run_view(&run)) {
            Some(e) => r == Err::<(), ExecutionError>(e) && *final(ctx) == *old(ctx),
            None => {
                &&& r is Ok
                &&& final(ctx).is_live(*output)
                &&& final(ctx).contents(*output) == run_view(&run)->Some_0
                &&& forall|c: DeviceBuffer| #[trigger]
                    old(ctx).is_live(c) ==> final(ctx).is_live(c)
                &&& forall|c: DeviceBuffer|
                    old(ctx).is_live(c) && c.slot != output.slot ==> #[trigger] final(ctx).contents(
                        c,
                    ) == old(ctx).contents(c)
            },
        },
{
    if !(ctx.check_live(input) && input.role == BufferRole::Input) {
        return Err(ExecutionError::InvalidInput);
    }
    if !(ctx.check_live(output) && output.role == BufferRole::Output && output.len
        == alg.output_size_bytes && output.slot != input.slot) {
        return Err(ExecutionError::InvalidOutput);
    }
    let limits = ctx.limits();
    let g = config.grid_size as u64;
    let b = config.block_size as u64;
    assert(g * b <= 0xffff_ffffu64 * 0xffff_ffffu64) by (nonlinear_arith)
        requires
            g <= 0xffff_ffffu64,
            b <= 0xffff_ffffu64,
    ;
    let threads = g * b;
    if !(1 <= config.block_size && config.block_size <= limits.max_threads_per_block && 1
        <= config.grid_size && config.grid_size <= limits.max_grid_dimension && threads
        >= input.len as u64) {
        return Err(ExecutionError::InvalidLaunch);
    }
    match run {
        KernelRun::Failed => Err(ExecutionError::LaunchFailed),
        KernelRun::Completed(digest) => {
            if digest.len() != alg.output_size_bytes {
                return Err(ExecutionError::WrongDigestLength);
            }
            ctx.write_buffer(output, digest);
            Ok(())
        },
    }
}

} // verus!
