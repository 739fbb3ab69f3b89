//! Launch configuration planner: block and grid sizes from an input length and
//! the limits of a device.
use vstd::prelude::*;

verus! {

/// Threads per block that the planner prefers when the device allows it.
pub const PREFERRED_BLOCK_SIZE: u32 = 128;

/// The capability limits of one device.
#[derive(Clone, Copy, Debug, PartialEq, Eq, Structural)]
pub struct DeviceLimits {
    pub max_threads_per_block: u32,
    pub max_grid_dimension: u32,
    pub shared_memory_bytes: u32,
}

/// How a kernel launch is partitioned: `grid_size` blocks of `block_size` threads.
#[derive(Clone, Copy, Debug, PartialEq, Eq, Structural)]
pub struct LaunchConfig {
    pub block_size: u32,
    pub grid_size: u32,
}

/// The input is longer than one launch can cover under the device's limits.
#[derive(Clone, Copy, Debug, PartialEq, Eq, Structural)]
pub struct InputTooLarge {
    pub input_length: u64,
}

/// The most threads that one launch can run under `limits`.
pub open spec fn launch_capacity(limits: DeviceLimits) -> nat {
    (limits.max_threads_per_block as nat) * (limits.max_grid_dimension as nat)
}

/// A configuration that respects `limits` and gives every input byte a thread.
pub open spec fn valid_config(c: LaunchConfig, input_length: nat, limits: DeviceLimits) -> bool {
    &&& 1 <= c.block_size <= limits.max_threads_per_block
    &&& 1 <= c.grid_size <= limits.max_grid_dimension
    &&& (c.grid_size as nat) * (c.block_size as nat) >= input_length
}

/// Blocks of `block` threads needed for `len` items; at least one block.
pub open spec fn blocks_needed(len: nat, block: nat) -> nat
    recommends
        block > 0,
{
    if len == 0 {
        1
    } else {
        ((len + block - 1) / block as int) as nat
    }
}

/// The preferred block size clamped to the device's maximum.
pub open spec fn clamped_block(limits: DeviceLimits) -> nat {
    if limits.max_threads_per_block < PREFERRED_BLOCK_SIZE {
        limits.max_threads_per_block as nat
    } else {
        PREFERRED_BLOCK_SIZE as nat
    }
}

/// What `plan` returns: the clamped preferred block size when its grid fits,
/// else the device's largest block, else `InputTooLarge`.
pub open spec fn plan_spec(input_length: u64, limits: DeviceLimits) -> Result<LaunchConfig, InputTooLarge> {
    let len = input_length as nat;
    let b = clamped_block(limits);
    let maxb = limits.max_threads_per_block as nat;
    if limits.max_threads_per_block == 0 || limits.max_grid_dimension == 0 {
        Err(InputTooLarge { input_length })
    } else if blocks_needed(len, b) <= limits.max_grid_dimension {
        Ok(LaunchConfig { block_size: b as u32, grid_size: blocks_needed(len, b) as u32 })
    } else if blocks_needed(len, maxb) <= limits.max_grid_dimension {
        Ok(LaunchConfig { block_size: maxb as u32, grid_size: blocks_needed(len, maxb) as u32 })
    } else {
        Err(InputTooLarge { input_length })
    }
}

proof fn lemma_blocks_needed(len: nat, block: nat)
    requires
        block > 0,
    ensures
        blocks_needed(len, block) >= 1,
        blocks_needed(len, block) * block >= len,
        len > 0 ==> (blocks_needed(len, block) - 1) * block < len,
{
    if len > 0 {
        let q = (len + block - 1) / block as int;
        let r = (len + block - 1) % block as int;
        assert(q * block + r == len + block - 1) by (nonlinear_arith)
            requires
                q == (len + block - 1) / block as int,
                r == (len + block - 1) % block as int,
                block > 0,
        ;
        assert(0 <= r < block);
        assert(q >= 1) by (nonlinear_arith)
            requires
                q * block + r == len + block - 1,
                0 <= r < block,
                len > 0,
        ;
        assert(q * block >= len);
        assert((q - 1) * block < len) by (nonlinear_arith)
            requires
                q * block + r == len + block - 1,
                0 <= r,
        ;
    }
}

/// Computes `ceil(len / block)`, and 1 for an empty input.
fn blocks_for(len: u64, block: u32) -> (r: u64)
    requires
        block > 0,
    ensures
        r == blocks_needed(len as nat, block as nat),
{
    proof {
        lemma_blocks_needed(len as nat, block as nat);
    }
    if len == 0 {
        1
    } else {
        let q = len / (block as u64);
        proof {
            let l = len as int;
            let b = block as int;
            assert(q * b <= l) by (nonlinear_arith)
                requires b > 0, q == l / b, l >= 0;
            assert(q <= q * b) by (nonlinear_arith)
                requires b >= 1, q >= 0;
            if l % b != 0 {
                assert(l == (l / b) * b + l % b) by (nonlinear_arith)
                    requires b > 0;
            }
        }
        let r: u64 = if len % (block as u64) != 0 { q + 1 } else { q };
        proof {
            let l = len as int;
            let b = block as int;
            assert(l == (l / b) * b + l % b) by (nonlinear_arith)
                requires b > 0;
            assert(((l + b - 1) / b) == (if l % b != 0 { l / b + 1 } else { l / b })) by (nonlinear_arith)
                requires
                    b > 0,
                    l > 0,
                    l == (l / b) * b + l % b,
                    0 <= l % b < b,
            ;
        }
        r
    }
}

/// Plans a launch for `input_length` bytes, one thread per byte.
pub fn plan(input_length: u64, limits: DeviceLimits) -> (r: Result<LaunchConfig, InputTooLarge>)
    ensures
        r == plan_spec(input_length, limits),
{
    if limits.max_threads_per_block == 0 || limits.max_grid_dimension == 0 {
        return Err(InputTooLarge { input_length });
    }
    let b: u32 = if limits.max_threads_per_block < PREFERRED_BLOCK_SIZE {
        limits.max_threads_per_block
    } else {
        PREFERRED_BLOCK_SIZE
    };
    let g = blocks_for(input_length, b);
    if g <= limits.max_grid_dimension as u64 {
        return Ok(LaunchConfig { block_size: b, grid_size: g as u32 });
    }
    let g2 = blocks_for(input_length, limits.max_threads_per_block);
    if g2 <= limits.max_grid_dimension as u64 {
        Ok(LaunchConfig { block_size: limits.max_threads_per_block, grid_size: g2 as u32 })
    } else {
        Err(InputTooLarge { input_length })
    }
}

/// Planning is a pure function of the input length and the limits: two calls
/// on the same arguments give the same result.
pub proof fn lemma_plan_is_pure(
    input_length: u64,
    limits: DeviceLimits,
    first: Result<LaunchConfig, InputTooLarge>,
    second: Result<LaunchConfig, InputTooLarge>,
)
    requires
        first == plan_spec(input_length, limits),
        second == plan_spec(input_length, limits),
    ensures
        first == second,
{
}

/// Every planned configuration respects the limits and covers the input, and
/// `InputTooLarge` comes exactly when no configuration within the limits
/// covers the input.
pub proof fn lemma_plan_sound_and_complete(input_length: u64, limits: DeviceLimits)
    ensures
        plan_spec(input_length, limits) is Ok ==> valid_config(
            plan_spec(input_length, limits)->Ok_0,
            input_length as nat,
            limits,
        ),
        plan_spec(input_length, limits) is Err <==> !exists|c: LaunchConfig|
            valid_config(c, input_length as nat, limits),
{
    let len = input_length as nat;
    let maxb = limits.max_threads_per_block as nat;
    let maxg = limits.max_grid_dimension as nat;
    if limits.max_threads_per_block == 0 || limits.max_grid_dimension == 0 {
        assert forall|c: LaunchConfig| !valid_config(c, len, limits) by {}
    } else {
        let b = clamped_block(limits);
        lemma_blocks_needed(len, b);
        lemma_blocks_needed(len, maxb);
        if blocks_needed(len, b) <= maxg {
            let c = LaunchConfig { block_size: b as u32, grid_size: blocks_needed(len, b) as u32 };
            assert(valid_config(c, len, limits));
        } else if blocks_needed(len, maxb) <= maxg {
            let c = LaunchConfig { block_size: maxb as u32, grid_size: blocks_needed(len, maxb) as u32 };
            assert(valid_config(c, len, limits));
        } else {
            let n = blocks_needed(len, maxb);
            assert(maxg * maxb < len) by (nonlinear_arith)
                requires
                    n >= maxg + 1,
                    (n - 1) * maxb < len,
            ;
            assert forall|c: LaunchConfig| !valid_config(c, len, limits) by {
                let g = c.grid_size as nat;
                let bb = c.block_size as nat;
                if g <= maxg && bb <= maxb {
                    assert(g * bb <= maxg * maxb) by (nonlinear_arith)
                        requires g <= maxg, bb <= maxb;
                }
            }
        }
    }
}

} // verus!
