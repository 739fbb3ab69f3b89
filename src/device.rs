//! Device context: the opened device, the buffers allocated on it, and the
//! counters that show every buffer released by the time it closes.
use vstd::prelude::*;

use crate::backend::{BackendDescriptor, BackendKind, DeviceInfo};
use crate::plan::DeviceLimits;

verus! {

/// Whether a device buffer holds kernel input or receives kernel output.
#[derive(Clone, Copy, Debug, PartialEq, Eq, Structural)]
pub enum BufferRole {
    Input,
    Output,
}

/// A handle to a device buffer. It is honoured only while the buffer it names
/// is live and carries the generation tag that the allocation gave it.
#[derive(Clone, Copy, Debug, PartialEq, Eq, Structural)]
pub struct DeviceBuffer {
    pub slot: usize,
    pub generation: u64,
    pub len: usize,
    pub role: BufferRole,
}

/// The device has too little free memory for an allocation.
#[derive(Clone, Copy, Debug, PartialEq, Eq, Structural)]
pub struct AllocError {
    pub requested: usize,
    pub available: usize,
}

/// A transfer named a buffer that was released or never allocated here.
#[derive(Clone, Copy, Debug, PartialEq, Eq, Structural)]
pub enum TransferError {
    InvalidHandle,
}

/// The device context could not be opened.
#[derive(Clone, Copy, Debug, PartialEq, Eq, Structural)]
pub enum DeviceInitError {
    /// The descriptor lists no device at this index.
    NoSuchDevice { index: usize },
    /// The backend's driver refused to create the context.
    ContextCreationFailed,
}

/// Buffer counts of a context when it closed.
#[derive(Clone, Copy, Debug, PartialEq, Eq, Structural)]
pub struct CloseReport {
    pub buffers_acquired: u64,
    pub buffers_released: u64,
    pub released_at_close: u64,
}

struct Slot {
    generation: u64,
    live: bool,
    role: BufferRole,
    data: Vec<u8>,
}

/// An open context on one device of a backend.
pub struct DeviceContext {
    kind: BackendKind,
    device: DeviceInfo,
    capacity: usize,
    used: usize,
    slots: Vec<Slot>,
    released: u64,
}

spec fn live_bytes(s: Seq<Slot>) -> nat
    decreases s.len(),
{
    if s.len() == 0 {
        0
    } else {
        live_bytes(s.drop_last()) + if s.last().live {
            s.last().data@.len()
        } else {
            0
        }
    }
}

spec fn dead_count(s: Seq<Slot>) -> nat
    decreases s.len(),
{
    if s.len() == 0 {
        0
    } else {
        dead_count(s.drop_last()) + if s.last().live {
            0nat
        } else {
            1nat
        }
    }
}

spec fn bytes_of(x: Slot) -> nat {
    if x.live {
        x.data@.len()
    } else {
        0
    }
}

spec fn dead_of(x: Slot) -> nat {
    if x.live {
        0
    } else {
        1
    }
}

proof fn lemma_update_totals(s: Seq<Slot>, i: int, x: Slot)
    requires
        0 <= i < s.len(),
    ensures
        live_bytes(s.update(i, x)) + bytes_of(s[i]) == live_bytes(s) + bytes_of(x),
        dead_count(s.update(i, x)) + dead_of(s[i]) == dead_count(s) + dead_of(x),
        dead_count(s) <= s.len(),
    decreases s.len(),
{
    let u = s.update(i, x);
    if i == s.len() - 1 {
        assert(u.drop_last() =~= s.drop_last());
        lemma_dead_bounded(s);
    } else {
        assert(u.drop_last() =~= s.drop_last().update(i, x));
        lemma_update_totals(s.drop_last(), i, x);
    }
}

proof fn lemma_dead_bounded(s: Seq<Slot>)
    ensures
        dead_count(s) <= s.len(),
    decreases s.len(),
{
    if s.len() > 0 {
        lemma_dead_bounded(s.drop_last());
    }
}

proof fn lemma_push_totals(s: Seq<Slot>, x: Slot)
    ensures
        live_bytes(s.push(x)) == live_bytes(s) + bytes_of(x),
        dead_count(s.push(x)) == dead_count(s) + dead_of(x),
{
    assert(s.push(x).drop_last() =~= s);
}

proof fn lemma_all_dead(s: Seq<Slot>)
    requires
        forall|j: int| 0 <= j < s.len() ==> !s[j].live,
    ensures
        dead_count(s) == s.len(),
        live_bytes(s) == 0,
    decreases s.len(),
{
    if s.len() > 0 {
        lemma_all_dead(s.drop_last());
    }
}

/// An element-wise copy of a byte slice.
fn copy_bytes(bytes: &[u8]) -> (r: Vec<u8>)
    ensures
        r@ == bytes@,
{
    let mut r: Vec<u8> = Vec::new();
    let mut i: usize = 0;
    while i < bytes.len()
        invariant
            i <= bytes@.len(),
            r@ == bytes@.take(i as int),
        decreases bytes.len() - i,
    {
        r.push(bytes[i]);
        i = i + 1;
        assert(r@ =~= bytes@.take(i as int));
    }
    assert(r@ =~= bytes@);
    r
}

/// Opens a context on device `index` (the first when `None`) of `desc`, with
/// `memory_bytes` of device memory free for buffers.
pub fn open_device(desc: &BackendDescriptor, index: Option<usize>, memory_bytes: usize) -> (r: Result<
    DeviceContext,
    DeviceInitError,
>)
    ensures
        ({
            let i = match index {
                Some(i) => i as int,
                None => 0,
            };
            match r {
                Ok(ctx) => 0 <= i < desc.devices@.len() && ctx.wf() && ctx.kind() == desc.kind
                    && ctx.device() == desc.devices@[i] && ctx.capacity() == memory_bytes
                    && ctx.used() == 0 && ctx.acquired() == 0 && ctx.released() == 0,
                Err(e) => !(0 <= i < desc.devices@.len()) && e == DeviceInitError::NoSuchDevice {
                    index: i as usize,
                },
            }
        }),
{
    let i: usize = match index {
        Some(i) => i,
        None => 0,
    };
    if i >= desc.devices.len() {
        return Err(DeviceInitError::NoSuchDevice { index: i });
    }
    let ctx = DeviceContext {
        kind: desc.kind,
        device: desc.devices[i],
        capacity: memory_bytes,
        used: 0,
        slots: Vec::new(),
        released: 0,
    };
    proof {
        assert(ctx.slots@ =~= Seq::<Slot>::empty());
    }
    Ok(ctx)
}

impl DeviceContext {
    pub closed spec fn wf(&self) -> bool {
        &&& self.used <= self.capacity
        &&& self.used == live_bytes(self.slots@)
        &&& self.released == dead_count(self.slots@)
        &&& self.slots@.len() < usize::MAX
        &&& forall|i: int|
            0 <= i < self.slots@.len() ==> self.slots@[i].generation == i && (
            self.slots@[i].live ==> self.slots@[i].data@.len() <= self.capacity)
    }

    pub closed spec fn kind(&self) -> BackendKind {
        self.kind
    }

    pub closed spec fn device(&self) -> DeviceInfo {
        self.device
    }

    /// Bytes of device memory available to this context.
    pub closed spec fn capacity(&self) -> nat {
        self.capacity as nat
    }

    /// Bytes held by live buffers.
    pub closed spec fn used(&self) -> nat {
        self.used as nat
    }

    /// Buffers allocated so far.
    pub closed spec fn acquired(&self) -> nat {
        self.slots@.len()
    }

    /// Buffers released so far.
    pub closed spec fn released(&self) -> nat {
        self.released as nat
    }

    /// Whether `b` names a live buffer of this context.
    pub closed spec fn is_live(&self, b: DeviceBuffer) -> bool {
        &&& b.slot < self.slots@.len()
        &&& self.slots@[b.slot as int].live
        &&& self.slots@[b.slot as int].generation == b.generation
        &&& self.slots@[b.slot as int].role == b.role
        &&& self.slots@[b.slot as int].data@.len() == b.len
    }

    /// What the live buffer `b` holds.
    pub closed spec fn contents(&self, b: DeviceBuffer) -> Seq<u8> {
        self.slots@[b.slot as int].data@
    }

    /// The limits of the device this context is open on.
    pub fn limits(&self) -> (r: DeviceLimits)
        ensures
            r == self.device().limits,
    {
        self.device.limits
    }

    /// The backend this context belongs to.
    pub fn backend(&self) -> (r: BackendKind)
        ensures
            r == self.kind(),
    {
        self.kind
    }

    /// Bytes still free for new buffers.
    pub fn available(&self) -> (r: usize)
        requires
            self.wf(),
        ensures
            r == self.capacity() - self.used(),
    {
        self.capacity - self.used
    }

    /// Whether `b` names a live buffer of this context.
    pub fn check_live(&self, b: &DeviceBuffer) -> (r: bool)
        requires
            self.wf(),
        ensures
            r == self.is_live(*b),
    {
        b.slot < self.slots.len() && self.slots[b.slot].live && self.slots[b.slot].generation
            == b.generation && self.slots[b.slot].role == b.role && self.slots[b.slot].data.len()
            == b.len
    }

    fn allocate(&mut self, data: Vec<u8>, role: BufferRole) -> (r: Result<DeviceBuffer, AllocError>)
        requires
            old(self).wf(),
        ensures
            final(self).wf(),
            final(self).kind() == old(self).kind(),
            final(self).device() == old(self).device(),
            final(self).capacity() == old(self).capacity(),
            final(self).released() == old(self).released(),
            match r {
                Ok(b) => {
                    &&& data@.len() <= old(self).capacity() - old(self).used()
                    &&& old(self).acquired() < usize::MAX - 1
                    &&& final(self).is_live(b) && b.len == data@.len() && b.role == role
                    &&& final(self).contents(b) == data@
                    &&& final(self).used() == old(self).used() + data@.len()
                    &&& final(self).acquired() == old(self).acquired() + 1
                    &&& forall|c: DeviceBuffer| #[trigger]
                        old(self).is_live(c) ==> final(self).is_live(c) && final(self).contents(c)
                            == old(self).contents(c) && c.slot != b.slot
                },
                Err(e) => {
                    &&& (data@.len() > old(self).capacity() - old(self).used()
                        || old(self).acquired() >= usize::MAX - 1)
                    &&& e == AllocError {
                        requested: data@.len() as usize,
                        available: (old(self).capacity() - old(self).used()) as usize,
                    }
                    &&& *final(self) == *old(self)
                },
            },
    {
        let available = self.capacity - self.used;
        if data.len() > available || self.slots.len() >= usize::MAX - 1 {
            return Err(AllocError { requested: data.len(), available });
        }
        let len = data.len();
        let slot = self.slots.len();
        let generation = slot as u64;
        let ghost before = self.slots@;
        let new_slot = Slot { generation, live: true, role, data };
        proof {
            lemma_push_totals(before, new_slot);
        }
        self.slots.push(new_slot);
        self.used = self.used + len;
        let b = DeviceBuffer { slot, generation, len, role };
        proof {
            assert forall|c: DeviceBuffer| #[trigger]
                old(self).is_live(c) implies self.is_live(c) && self.contents(c) == old(
                self,
            ).contents(c) && c.slot != b.slot by {
                assert(self.slots@[c.slot as int] == before[c.slot as int]);
            }
        }
        Ok(b)
    }

    /// Allocates an input buffer sized to `bytes` and copies `bytes` into it.
    /// An empty input gives an empty buffer.
    pub fn upload(&mut self, bytes: &[u8]) -> (r: Result<DeviceBuffer, AllocError>)
        requires
            old(self).wf(),
        ensures
            final(self).wf(),
            final(self).kind() == old(self).kind(),
            final(self).device() == old(self).device(),
            final(self).capacity() == old(self).capacity(),
            final(self).released() == old(self).released(),
            match r {
                Ok(b) => {
                    &&& bytes@.len() <= old(self).capacity() - old(self).used()
                    &&& old(self).acquired() < usize::MAX - 1
                    &&& final(self).is_live(b) && b.len == bytes@.len() && b.role
                        == BufferRole::Input
                    &&& final(self).contents(b) == bytes@
                    &&& final(self).used() == old(self).used() + bytes@.len()
                    &&& final(self).acquired() == old(self).acquired() + 1
                    &&& forall|c: DeviceBuffer| #[trigger]
                        old(self).is_live(c) ==> final(self).is_live(c) && final(self).contents(c)
                            == old(self).contents(c) && c.slot != b.slot
                },
                Err(e) => {
                    &&& (bytes@.len() > old(self).capacity() - old(self).used()
                        || old(self).acquired() >= usize::MAX - 1)
                    &&& e == AllocError {
                        requested: bytes@.len() as usize,
                        available: (old(self).capacity() - old(self).used()) as usize,
                    }
                    &&& *final(self) == *old(self)
                },
            },
    {
        let data = copy_bytes(bytes);
        self.allocate(data, BufferRole::Input)
    }

    /// Allocates an output buffer of `size` bytes, whose contents stay
    /// undefined until a kernel writes them.
    pub fn alloc_output(&mut self, size: usize) -> (r: Result<DeviceBuffer, AllocError>)
        requires
            old(self).wf(),
        ensures
            final(self).wf(),
            final(self).kind() == old(self).kind(),
            final(self).device() == old(self).device(),
            final(self).capacity() == old(self).capacity(),
            final(self).released() == old(self).released(),
            match r {
                Ok(b) => {
                    &&& size <= old(self).capacity() - old(self).used()
                    &&& old(self).acquired() < usize::MAX - 1
                    &&& final(self).is_live(b) && b.len == size && b.role == BufferRole::Output
                    &&& final(self).used() == old(self).used() + size
                    &&& final(self).acquired() == old(self).acquired() + 1
                    &&& forall|c: DeviceBuffer| #[trigger]
                        old(self).is_live(c) ==> final(self).is_live(c) && final(self).contents(c)
                            == old(self).contents(c) && c.slot != b.slot
                },
                Err(e) => {
                    &&& (size > old(self).capacity() - old(self).used() || old(self).acquired()
                        >= usize::MAX - 1)
                    &&& e == AllocError {
                        requested: size,
                        available: (old(self).capacity() - old(self).used()) as usize,
                    }
                    &&& *final(self) == *old(self)
                },
            },
    {
        if size > self.capacity - self.used {
            return Err(AllocError { requested: size, available: self.capacity - self.used });
        }
        let mut data: Vec<u8> = Vec::new();
        let mut i: usize = 0;
        while i < size
            invariant
                i <= size,
                data@.len() == i,
            decreases size - i,
        {
            data.push(0);
            i = i + 1;
        }
        self.allocate(data, BufferRole::Output)
    }

    /// Copies the live buffer `b` back to the host.
    pub fn download(&self, b: &DeviceBuffer) -> (r: Result<Vec<u8>, TransferError>)
        requires
            self.wf(),
        ensures
            match r {
                Ok(v) => self.is_live(*b) && v@ == self.contents(*b) && v@.len() == b.len,
                Err(e) => !self.is_live(*b) && e == TransferError::InvalidHandle,
            },
    {
        if !self.check_live(b) {
            return Err(TransferError::InvalidHandle);
        }
        Ok(copy_bytes(self.slots[b.slot].data.as_slice()))
    }

    /// Releases the live buffer `b`. A handle that is stale or was never
    /// allocated here is refused and changes nothing.
    pub fn release(&mut self, b: &DeviceBuffer) -> (r: Result<(), TransferError>)
        requires
            old(self).wf(),
        ensures
            final(self).wf(),
            final(self).kind() == old(self).kind(),
            final(self).device() == old(self).device(),
            final(self).capacity() == old(self).capacity(),
            final(self).acquired() == old(self).acquired(),
            r is Ok <==> old(self).is_live(*b),
            r is Ok ==> {
                &&& !final(self).is_live(*b)
                &&& final(self).released() == old(self).released() + 1
                &&& final(self).used() == old(self).used() - b.len
                &&& forall|c: DeviceBuffer| #[trigger]
                    old(self).is_live(c) && c.slot != b.slot ==> final(self).is_live(c)
                        && final(self).contents(c) == old(self).contents(c)
            },
            r is Err ==> *final(self) == *old(self) && r == Err::<(), _>(
                TransferError::InvalidHandle,
            ),
    {
        if !self.check_live(b) {
            return Err(TransferError::InvalidHandle);
        }
        let ghost before = self.slots@;
        self.retire(b.slot);
        proof {
            assert forall|c: DeviceBuffer| #[trigger]
                old(self).is_live(c) && c.slot != b.slot implies self.is_live(c) && self.contents(c)
                == old(self).contents(c) by {
                assert(self.slots@[c.slot as int] == before[c.slot as int]);
            }
        }
        Ok(())
    }

    /// Marks the live slot `i` released and gives its bytes back.
    fn retire(&mut self, i: usize)
        requires
            old(self).wf(),
            i < old(self).slots@.len(),
            old(self).slots@[i as int].live,
        ensures
            final(self).wf(),
            final(self).kind == old(self).kind,
            final(self).device == old(self).device,
            final(self).capacity == old(self).capacity,
            final(self).slots@.len() == old(self).slots@.len(),
            final(self).used == old(self).used - old(self).slots@[i as int].data@.len(),
            final(self).released == old(self).released + 1,
            !final(self).slots@[i as int].live,
            forall|j: int|
                0 <= j < old(self).slots@.len() && j != i ==> final(self).slots@[j] == old(
                    self,
                ).slots@[j],
    {
        let ghost before = self.slots@;
        let old_slot = self.slots.remove(i);
        let len = old_slot.data.len();
        let dead = Slot {
            generation: old_slot.generation,
            live: false,
            role: old_slot.role,
            data: old_slot.data,
        };
        self.slots.insert(i, dead);
        proof {
            assert(self.slots@ =~= before.update(i as int, dead));
            lemma_update_totals(before, i as int, dead);
            lemma_dead_bounded(before);
        }
        self.used = self.used - len;
        self.released = self.released + 1;
    }

    /// Replaces what the live buffer `b` holds by `data`, of the same length.
    pub(crate) fn write_buffer(&mut self, b: &DeviceBuffer, data: Vec<u8>)
        requires
            old(self).wf(),
            old(self).is_live(*b),
            data@.len() == b.len,
        ensures
            final(self).wf(),
            final(self).kind() == old(self).kind(),
            final(self).device() == old(self).device(),
            final(self).capacity() == old(self).capacity(),
            final(self).used() == old(self).used(),
            final(self).acquired() == old(self).acquired(),
            final(self).released() == old(self).released(),
            final(self).is_live(*b),
            final(self).contents(*b) == data@,
            forall|c: DeviceBuffer| #[trigger]
                old(self).is_live(c) ==> final(self).is_live(c),
            forall|c: DeviceBuffer|
                old(self).is_live(c) && c.slot != b.slot ==> #[trigger] final(self).contents(c)
                    == old(self).contents(c),
    {
        let ghost before = self.slots@;
        let i = b.slot;
        let old_slot = self.slots.remove(i);
        let next = Slot { generation: old_slot.generation, live: true, role: old_slot.role, data };
        self.slots.insert(i, next);
        proof {
            assert(self.slots@ =~= before.update(i as int, next));
            lemma_update_totals(before, i as int, next);
            assert forall|c: DeviceBuffer| #[trigger]
                old(self).is_live(c) implies self.is_live(c) by {
                if c.slot != b.slot {
                    assert(self.slots@[c.slot as int] == before[c.slot as int]);
                }
            }
            assert forall|c: DeviceBuffer|
                old(self).is_live(c) && c.slot != b.slot implies #[trigger] self.contents(c)
                == old(self).contents(c) by {
                assert(self.slots@[c.slot as int] == before[c.slot as int]);
            }
        }
    }
}

/// Closes `ctx`, first releasing every buffer still live in it, so that every
/// buffer it allocated is released.
pub fn close_device(ctx: DeviceContext) -> (r: CloseReport)
    requires
        ctx.wf(),
    ensures
        r.buffers_acquired == ctx.acquired(),
        r.buffers_released == r.buffers_acquired,
        r.released_at_close == ctx.acquired() - ctx.released(),
{
    let mut ctx = ctx;
    let ghost start = ctx.released();
    let ghost acquired = ctx.acquired();
    proof {
        lemma_dead_bounded(ctx.slots@);
    }
    let mut i: usize = 0;
    let mut at_close: u64 = 0;
    while i < ctx.slots.len()
        invariant
            ctx.wf(),
            i <= ctx.slots@.len(),
            ctx.acquired() == acquired,
            forall|j: int| 0 <= j < i ==> !ctx.slots@[j].live,
            ctx.released() == start + at_close,
        decreases ctx.slots.len() - i,
    {
        if ctx.slots[i].live {
            proof {
                lemma_dead_bounded(ctx.slots@);
            }
            ctx.retire(i);
            at_close = at_close + 1;
        }
        i = i + 1;
    }
    proof {
        lemma_all_dead(ctx.slots@);
    }
    CloseReport {
        buffers_acquired: ctx.slots.len() as u64,
        buffers_released: ctx.released,
        released_at_close: at_close,
    }
}

} // verus!