//! Which part of the shared memory pool the next frame is drawn into.

use crate::renderer::buffer::{PixelBuffer, SoftwareBuffer};
use crate::renderer::frame;
use crate::renderer::frame::{FrameSize, RendererError, Result};
use crate::renderer::shape;
use crate::renderer::shape::{signed, Rect};
use vstd::prelude::*;

verus! {

/// The most frames a surface keeps in shared memory.
pub const MAX_BUFFER_SLOTS: usize = 2;

/// A frame in shared memory. The compositor may read it until it is released.
#[derive(Debug, Clone, Copy, PartialEq, Eq, Structural)]
pub struct BufferSlot {
    pub id: u64,
    pub released: bool,
}

/// The slots of a surface's shared memory pool.
#[derive(Debug)]
pub struct SurfaceBufferPool {
    pub slot_len: usize,
    pub slots: Vec<BufferSlot>,
    pub next_id: u64,
}

/// What the compositor hands back with a buffer: the slot it was drawn into.
#[derive(Debug, Clone, Copy, PartialEq, Eq, Structural)]
pub struct ShmBufferRelease {
    pub slot_id: u64,
}

/// A slot to draw into, and how long the pool has to be.
#[derive(Debug, Clone, Copy, PartialEq, Eq, Structural)]
pub struct SlotGrant {
    pub index: usize,
    pub offset: usize,
    pub pool_len: usize,
    pub release: ShmBufferRelease,
}

#[derive(Debug, Clone, Copy, PartialEq, Eq, Structural)]
pub enum SlotChoice {
    Reuse(usize),
    Grow,
    Skip,
}

/// The first slot the compositor has released, if there is one.
pub open spec fn first_released(released: Seq<bool>) -> Option<int>
    decreases released.len(),
{
    if released.len() == 0 {
        None
    } else {
        match first_released(released.drop_last()) {
            Some(index) => Some(index),
            None => if released.last() {
                Some(released.len() - 1)
            } else {
                None
            },
        }
    }
}

/// A released slot is used again, a new one is added while there is room, else the frame waits.
pub open spec fn slot_choice(released: Seq<bool>, slot_count: nat, max_slots: nat) -> SlotChoice {
    match first_released(released) {
        Some(index) => SlotChoice::Reuse(index as usize),
        None => if slot_count >= max_slots {
            SlotChoice::Skip
        } else {
            SlotChoice::Grow
        },
    }
}

proof fn lemma_first_released(released: Seq<bool>, index: int)
    requires
        0 <= index < released.len(),
        released[index],
        forall|i: int| 0 <= i < index ==> !released[i],
    ensures
        first_released(released) == Some(index),
    decreases released.len(),
{
    let rest = released.drop_last();
    if index < rest.len() {
        lemma_first_released(rest, index);
    } else {
        lemma_none_released(rest);
    }
}

proof fn lemma_none_released(released: Seq<bool>)
    requires
        forall|i: int| 0 <= i < released.len() ==> !released[i],
    ensures
        first_released(released) is None,
    decreases released.len(),
{
    if released.len() > 0 {
        lemma_none_released(released.drop_last());
    }
}

proof fn lemma_first_released_is_released(released: Seq<bool>)
    ensures
        match first_released(released) {
            Some(index) => 0 <= index < released.len() && released[index],
            None => forall|i: int| 0 <= i < released.len() ==> !released[i],
        },
    decreases released.len(),
{
    if released.len() > 0 {
        let rest = released.drop_last();
        lemma_first_released_is_released(rest);
        if first_released(released) is None {
            assert forall|i: int| 0 <= i < released.len() implies !released[i] by {
                if i < rest.len() {
                    assert(!rest[i]);
                }
            }
        }
    }
}

/// Chooses the slot for the next frame.
pub fn choose_slot(released: &[bool], slot_count: usize, max_slots: usize) -> (choice: SlotChoice)
    ensures
        choice == slot_choice(released@, slot_count as nat, max_slots as nat),
{
    let mut index: usize = 0;
    while index < released.len()
        invariant
            index <= released.len(),
            forall|i: int| 0 <= i < index ==> !released@[i],
        decreases released.len() - index,
    {
        if released[index] {
            proof {
                lemma_first_released(released@, index as int);
            }
            return SlotChoice::Reuse(index);
        }
        index += 1;
    }
    proof {
        lemma_none_released(released@);
    }
    if slot_count >= max_slots {
        SlotChoice::Skip
    } else {
        SlotChoice::Grow
    }
}

/// The bytes a frame needs in the pool.
pub fn required_pool_len(size: FrameSize) -> (result: Result<usize>)
    ensures
        match result {
            Ok(len) => size.width != 0 && size.height != 0 && len == frame::frame_bytes(size),
            Err(RendererError::EmptyFrame) => size.width == 0 || size.height == 0,
            Err(error) => size.width != 0 && size.height != 0 && frame::frame_bytes(size)
                > usize::MAX && error == RendererError::InvalidFrameSize(size),
        },
{
    if size.is_empty() {
        return Err(RendererError::EmptyFrame);
    }
    match size.byte_len() {
        Some(len) => Ok(len),
        None => Err(RendererError::InvalidFrameSize(size)),
    }
}

/// The product of two numbers, capped at the largest `usize`.
pub open spec fn saturating_product(a: nat, b: nat) -> nat {
    if a * b <= usize::MAX {
        a * b
    } else {
        usize::MAX as nat
    }
}

/// The product of two numbers, if a `usize` can hold it.
fn checked_product(a: usize, b: usize) -> (product: Option<usize>)
    ensures
        product == if a * b <= usize::MAX {
            Some((a * b) as usize)
        } else {
            None
        },
{
    assert(0 <= a * b <= usize::MAX * usize::MAX) by (nonlinear_arith)
        requires
            0 <= a <= usize::MAX,
            0 <= b <= usize::MAX,
    ;
    assert(usize::MAX * usize::MAX <= u128::MAX) by (nonlinear_arith)
        requires
            0 <= usize::MAX <= 0xffff_ffff_ffff_ffff,
    ;
    let product: u128 = a as u128 * b as u128;
    if product <= usize::MAX as u128 {
        Some(product as usize)
    } else {
        None
    }
}

pub fn reserved_bytes_for_slots(slot_len: usize, slots: usize) -> (bytes: usize)
    ensures
        bytes == saturating_product(slot_len as nat, slots as nat),
{
    match checked_product(slot_len, slots) {
        Some(product) => product,
        None => usize::MAX,
    }
}

/// The slots without the released ones at the end; one always stays.
pub open spec fn compacted(slots: Seq<BufferSlot>) -> Seq<BufferSlot>
    decreases slots.len(),
{
    if slots.len() > 1 && slots.last().released {
        compacted(slots.drop_last())
    } else {
        slots
    }
}

/// Which slots are released.
pub open spec fn released_flags(slots: Seq<BufferSlot>) -> Seq<bool> {
    slots.map_values(|slot: BufferSlot| slot.released)
}

/// The slots that are there when a frame of `byte_len` bytes asks for one. Another frame size
/// drops them all.
pub open spec fn kept_slots(slot_len: usize, slots: Seq<BufferSlot>, byte_len: usize) -> Seq<
    BufferSlot,
> {
    if slot_len != byte_len {
        Seq::empty()
    } else {
        compacted(slots)
    }
}

proof fn lemma_compacted(slots: Seq<BufferSlot>)
    ensures
        compacted(slots).len() <= slots.len(),
        compacted(slots) == slots.take(compacted(slots).len() as int),
    decreases slots.len(),
{
    if slots.len() > 1 && slots.last().released {
        lemma_compacted(slots.drop_last());
        assert(compacted(slots) =~= slots.take(compacted(slots).len() as int));
    } else {
        assert(slots =~= slots.take(slots.len() as int));
    }
}

/// A pool by its slots.
pub ghost struct PoolModel {
    pub slot_len: usize,
    pub slots: Seq<BufferSlot>,
    pub next_id: u64,
}

impl View for SurfaceBufferPool {
    type V = PoolModel;

    open spec fn view(&self) -> PoolModel {
        PoolModel { slot_len: self.slot_len, slots: self.slots@, next_id: self.next_id }
    }
}

/// A pool for frames of this size, without a slot yet.
pub open spec fn empty_pool(size: FrameSize) -> PoolModel {
    PoolModel {
        slot_len: frame::frame_bytes(size) as usize,
        slots: Seq::empty(),
        next_id: 0,
    }
}

/// Whether a slot was handed out as it has to be: a released one, else a new one while there is
/// room, and none while the compositor uses them all.
pub open spec fn is_handed_out(
    before: PoolModel,
    after: PoolModel,
    size: FrameSize,
    byte_len: usize,
    result: Result<SlotGrant>,
) -> bool {
    let kept = kept_slots(before.slot_len, before.slots, byte_len);
    let needed = byte_len * (if kept.len() == 0 {
        1
    } else {
        kept.len()
    });
    let grown = byte_len * (kept.len() + 1);
    &&& after.slot_len == byte_len
    &&& after.next_id == if after.slots.len() > kept.len() {
        before.next_id + 1
    } else {
        before.next_id as int
    }
    &&& if needed > usize::MAX {
        after.slots == kept && result == Err::<SlotGrant, RendererError>(
            RendererError::InvalidFrameSize(size),
        )
    } else {
        match slot_choice(released_flags(kept), kept.len(), MAX_BUFFER_SLOTS as nat) {
            SlotChoice::Reuse(index) => after.slots == kept.update(
                index as int,
                BufferSlot { released: false, ..kept[index as int] },
            ) && result == Ok::<SlotGrant, RendererError>(
                SlotGrant {
                    index,
                    offset: (index * byte_len) as usize,
                    pool_len: needed as usize,
                    release: ShmBufferRelease { slot_id: kept[index as int].id },
                },
            ),
            SlotChoice::Skip => after.slots == kept && result == Err::<SlotGrant, RendererError>(
                RendererError::BufferSlotsBusy,
            ),
            SlotChoice::Grow => if grown > i32::MAX {
                after.slots == kept && result == Err::<SlotGrant, RendererError>(
                    RendererError::InvalidFrameSize(size),
                )
            } else {
                after.slots == kept.push(
                    BufferSlot { id: before.next_id, released: false },
                ) && result == Ok::<SlotGrant, RendererError>(
                    SlotGrant {
                        index: kept.len() as usize,
                        offset: (kept.len() * byte_len) as usize,
                        pool_len: grown as usize,
                        release: ShmBufferRelease { slot_id: before.next_id },
                    },
                )
            },
        }
    }
}

/// Whether a frame of a size was given a slot: none without an area, none that memory cannot
/// hold, and any other one as slots are handed out.
pub open spec fn is_frame_slot(
    before: PoolModel,
    after: PoolModel,
    size: FrameSize,
    result: Result<SlotGrant>,
) -> bool {
    if size.width == 0 || size.height == 0 {
        after == before && result == Err::<SlotGrant, RendererError>(RendererError::EmptyFrame)
    } else if frame::frame_bytes(size) > usize::MAX {
        after == before && result == Err::<SlotGrant, RendererError>(
            RendererError::InvalidFrameSize(size),
        )
    } else {
        is_handed_out(before, after, size, frame::frame_bytes(size) as usize, result)
    }
}

impl SurfaceBufferPool {
    /// There are never more slots than allowed, and no two share an identity.
    pub open spec fn wf(&self) -> bool {
        &&& self.slots@.len() <= MAX_BUFFER_SLOTS
        &&& forall|i: int|
            0 <= i < self.slots@.len() ==> (#[trigger] self.slots@[i]).id < self.next_id
        &&& forall|i: int, j: int|
            0 <= i < j < self.slots@.len() ==> (#[trigger] self.slots@[i]).id != (
            #[trigger] self.slots@[j]).id
    }

    /// A pool for frames of this size, without a slot yet.
    pub fn new(size: FrameSize) -> (result: Result<Self>)
        ensures
            match result {
                Ok(pool) => size.width != 0 && size.height != 0 && pool.wf() && pool.slot_len
                    == frame::frame_bytes(size) && pool@ == empty_pool(size),
                Err(RendererError::EmptyFrame) => size.width == 0 || size.height == 0,
                Err(error) => size.width != 0 && size.height != 0 && frame::frame_bytes(size)
                    > usize::MAX && error == RendererError::InvalidFrameSize(size),
            },
    {
        match required_pool_len(size) {
            Ok(slot_len) => {
                let pool = Self { slot_len, slots: Vec::new(), next_id: 0 };
                assert(pool@.slots =~= Seq::empty());
                Ok(pool)
            },
            Err(error) => Err(error),
        }
    }

    pub fn reserved_bytes(&self) -> (bytes: usize)
        ensures
            bytes == saturating_product(self.slot_len as nat, self.slots@.len()),
    {
        reserved_bytes_for_slots(self.slot_len, self.slots.len())
    }

    pub fn slot_count(&self) -> (count: usize)
        ensures
            count == self.slots@.len(),
    {
        self.slots.len()
    }

    fn compact_released_slots(&mut self)
        ensures
            final(self).slots@ == compacted(old(self).slots@),
            final(self).slot_len == old(self).slot_len,
            final(self).next_id == old(self).next_id,
    {
        while self.slots.len() > 1 && self.slots[self.slots.len() - 1].released
            invariant
                compacted(self.slots@) == compacted(old(self).slots@),
                self.slot_len == old(self).slot_len,
                self.next_id == old(self).next_id,
            decreases self.slots.len(),
        {
            let ghost before = self.slots@;
            let _ = self.slots.pop();
            assert(self.slots@ =~= before.drop_last());
        }
    }

    fn flags(&self) -> (flags: Vec<bool>)
        ensures
            flags@ == released_flags(self.slots@),
    {
        let mut flags: Vec<bool> = Vec::new();
        let mut index: usize = 0;
        while index < self.slots.len()
            invariant
                index <= self.slots@.len(),
                flags@.len() == index,
                forall|i: int| 0 <= i < index ==> flags@[i] == self.slots@[i].released,
            decreases self.slots@.len() - index,
        {
            flags.push(self.slots[index].released);
            index += 1;
        }
        assert(flags@ =~= released_flags(self.slots@));
        flags
    }

    /// Hands out a slot for the next frame: a released one, else a new one while there is room.
    /// While all are in use by the compositor the frame has to wait.
    pub fn next_buffer_slot(&mut self, size: FrameSize, byte_len: usize) -> (result: Result<
        SlotGrant,
    >)
        requires
            old(self).wf(),
            old(self).next_id < u64::MAX,
        ensures
            final(self).wf(),
            is_handed_out(old(self)@, final(self)@, size, byte_len, result),
    {
        if self.slot_len != byte_len {
            self.slot_len = byte_len;
            self.slots = Vec::new();
        }
        proof {
            lemma_compacted(self.slots@);
        }
        self.compact_released_slots();
        let ghost kept = self.slots@;
        assert(kept == kept_slots(old(self).slot_len, old(self).slots@, byte_len));
        let count: usize = self.slots.len();
        let held: usize = if count == 0 {
            1
        } else {
            count
        };
        let needed: usize = match checked_product(byte_len, held) {
            Some(needed) => needed,
            None => {
                return Err(RendererError::InvalidFrameSize(size));
            },
        };
        let flags = self.flags();
        proof {
            lemma_first_released_is_released(released_flags(kept));
        }
        match choose_slot(flags.as_slice(), count, MAX_BUFFER_SLOTS) {
            SlotChoice::Reuse(index) => {
                let slot = self.slots[index];
                self.slots.set(index, BufferSlot { id: slot.id, released: false });
                proof {
                    assert(index * byte_len <= byte_len * held) by (nonlinear_arith)
                        requires
                            index <= held,
                            byte_len >= 0,
                    ;
                    assert(index * byte_len >= 0) by (nonlinear_arith)
                        requires
                            index >= 0,
                            byte_len >= 0,
                    ;
                }
                Ok(
                    SlotGrant {
                        index,
                        offset: index * byte_len,
                        pool_len: needed,
                        release: ShmBufferRelease { slot_id: slot.id },
                    },
                )
            },
            SlotChoice::Skip => Err(RendererError::BufferSlotsBusy),
            SlotChoice::Grow => {
                let grown: usize = match checked_product(byte_len, count + 1) {
                    Some(grown) => grown,
                    None => {
                        return Err(RendererError::InvalidFrameSize(size));
                    },
                };
                if grown > i32::MAX as usize {
                    return Err(RendererError::InvalidFrameSize(size));
                }
                let id: u64 = self.next_id;
                self.slots.push(BufferSlot { id, released: false });
                self.next_id = id + 1;
                proof {
                    assert(count * byte_len <= byte_len * (count + 1)) by (nonlinear_arith)
                        requires
                            byte_len >= 0,
                            count >= 0,
                    ;
                    assert(count * byte_len >= 0) by (nonlinear_arith)
                        requires
                            byte_len >= 0,
                            count >= 0,
                    ;
                }
                Ok(
                    SlotGrant {
                        index: count,
                        offset: count * byte_len,
                        pool_len: grown,
                        release: ShmBufferRelease { slot_id: id },
                    },
                )
            },
        }
    }

    /// A slot to draw a whole frame in.
    pub fn render_buffer(&mut self, size: FrameSize) -> (result: Result<SlotGrant>)
        requires
            old(self).wf(),
            old(self).next_id < u64::MAX,
        ensures
            final(self).wf(),
            is_frame_slot(old(self)@, final(self)@, size, result),
    {
        match required_pool_len(size) {
            Ok(byte_len) => self.next_buffer_slot(size, byte_len),
            Err(error) => Err(error),
        }
    }

    /// A slot to copy a finished picture to.
    pub fn commit_buffer(&mut self, buffer: &SoftwareBuffer) -> (result: Result<SlotGrant>)
        requires
            old(self).wf(),
            old(self).next_id < u64::MAX,
        ensures
            final(self).wf(),
            is_frame_slot(old(self)@, final(self)@, buffer.frame(), result),
    {
        self.render_buffer(buffer.size())
    }

    /// A slot to draw a part of a frame in; what was damaged is settled once that is drawn.
    pub fn render_buffer_region(&mut self, size: FrameSize) -> (result: Result<SlotGrant>)
        requires
            old(self).wf(),
            old(self).next_id < u64::MAX,
        ensures
            final(self).wf(),
            is_frame_slot(old(self)@, final(self)@, size, result),
    {
        self.render_buffer(size)
    }

    /// What is damaged by a partial redraw, or nothing where the frame need not be shown; its
    /// slot is then free again.
    pub fn region_damage(
        &mut self,
        slot_id: u64,
        rendered: Option<Rect>,
        damage: Rect,
        size: FrameSize,
    ) -> (damaged: Option<Rect>)
        requires
            old(self).wf(),
        ensures
            final(self).wf(),
            final(self).slot_len == old(self).slot_len,
            final(self).next_id == old(self).next_id,
            ({
                let part = redrawn(rendered, damage, size);
                if part.width <= 0 || part.height <= 0 {
                    damaged is None && final(self).slots@ == with_released(
                        old(self).slots@,
                        slot_id,
                    )
                } else {
                    damaged == Some(part) && final(self).slots@ == old(self).slots@
                }
            }),
    {
        let part = match rendered {
            Some(rect) => rect,
            None => damage.clipped_to(signed(size.width), signed(size.height)),
        };
        if part.is_empty() {
            let release = ShmBufferRelease { slot_id };
            release.mark_released(self);
            return None;
        }
        Some(part)
    }
}

/// What a partial redraw changed: what it reports, else the visible part of what was asked for.
pub open spec fn redrawn(rendered: Option<Rect>, damage: Rect, size: FrameSize) -> Rect {
    match rendered {
        Some(rect) => rect,
        None => shape::clip(
            damage,
            shape::signed_extent(size.width),
            shape::signed_extent(size.height),
        ),
    }
}

/// The slots after the one of this identity was released.
pub open spec fn with_released(slots: Seq<BufferSlot>, slot_id: u64) -> Seq<BufferSlot> {
    slots.map_values(
        |slot: BufferSlot|
            if slot.id == slot_id {
                BufferSlot { released: true, ..slot }
            } else {
                slot
            },
    )
}

impl ShmBufferRelease {
    /// Marks the slot as free. A slot that is gone by now stays gone.
    pub fn mark_released(&self, pool: &mut SurfaceBufferPool)
        requires
            old(pool).wf(),
        ensures
            final(pool).wf(),
            final(pool).slot_len == old(pool).slot_len,
            final(pool).next_id == old(pool).next_id,
            final(pool).slots@ == with_released(old(pool).slots@, self.slot_id),
    {
        let mut index: usize = 0;
        while index < pool.slots.len()
            invariant
                index <= pool.slots@.len(),
                pool.slots@.len() == old(pool).slots@.len(),
                pool.slot_len == old(pool).slot_len,
                pool.next_id == old(pool).next_id,
                forall|i: int|
                    0 <= i < index ==> pool.slots@[i] == with_released(
                        old(pool).slots@,
                        self.slot_id,
                    )[i],
                forall|i: int| index <= i < pool.slots@.len() ==> pool.slots@[i] == old(pool).slots@[i],
            decreases pool.slots@.len() - index,
        {
            let slot = pool.slots[index];
            if slot.id == self.slot_id {
                pool.slots.set(index, BufferSlot { id: slot.id, released: true });
            }
            index += 1;
        }
        assert(pool.slots@ =~= with_released(old(pool).slots@, self.slot_id));
        proof {
            let slots = pool.slots@;
            assert forall|i: int, j: int| 0 <= i < j < slots.len() implies (#[trigger] slots[i]).id
                != (#[trigger] slots[j]).id by {
                assert(slots[i].id == old(pool).slots@[i].id);
                assert(slots[j].id == old(pool).slots@[j].id);
            }
            assert forall|i: int| 0 <= i < slots.len() implies (#[trigger] slots[i]).id
                < pool.next_id by {
                assert(slots[i].id == old(pool).slots@[i].id);
            }
        }
    }
}

/// A slot that the compositor may still read is never handed out again.
pub proof fn law_busy_slots_are_not_reused(kept: Seq<BufferSlot>)
    ensures
        match slot_choice(released_flags(kept), kept.len(), MAX_BUFFER_SLOTS as nat) {
            SlotChoice::Reuse(index) => kept.len() <= usize::MAX ==> index < kept.len() && kept[index as int].released,
            SlotChoice::Grow => kept.len() < MAX_BUFFER_SLOTS,
            SlotChoice::Skip => forall|i: int| 0 <= i < kept.len() ==> !(#[trigger] kept[i]).released,
        },
{
    let flags = released_flags(kept);
    lemma_first_released_is_released(flags);
    assert forall|i: int| 0 <= i < kept.len() implies (#[trigger] kept[i]).released == flags[i] by {}
}

/// Where two frames fit, a slot is refused exactly while the compositor holds both slots of that
/// length. Else one is handed out that is new or was released, and there are never more slots
/// than allowed.
pub proof fn law_slot_is_refused_only_while_all_are_held(
    before: PoolModel,
    after: PoolModel,
    size: FrameSize,
    byte_len: usize,
    result: Result<SlotGrant>,
)
    requires
        is_handed_out(before, after, size, byte_len, result),
        before.slots.len() <= MAX_BUFFER_SLOTS,
        0 < byte_len,
        2 * byte_len <= i32::MAX,
    ensures
        after.slots.len() <= MAX_BUFFER_SLOTS,
        result == Err::<SlotGrant, RendererError>(RendererError::BufferSlotsBusy) <==> {
            &&& before.slot_len == byte_len
            &&& before.slots.len() == MAX_BUFFER_SLOTS
            &&& forall|i: int| 0 <= i < before.slots.len() ==> !(#[trigger] before.slots[i]).released
        },
        match result {
            Ok(grant) => {
                &&& grant.index < after.slots.len()
                &&& !after.slots[grant.index as int].released
                &&& before.slot_len != byte_len || grant.index >= before.slots.len()
                    || before.slots[grant.index as int].released
            },
            Err(error) => error == RendererError::BufferSlotsBusy,
        },
{
    let kept = kept_slots(before.slot_len, before.slots, byte_len);
    let flags = released_flags(kept);
    lemma_compacted(before.slots);
    lemma_first_released_is_released(flags);
    reveal_with_fuel(compacted, 3);
    assert forall|i: int| 0 <= i < kept.len() implies (#[trigger] kept[i]).released == flags[i]
        && (before.slot_len == byte_len ==> kept[i] == before.slots[i]) by {}
    assert(kept.len() <= 2);
    if before.slot_len == byte_len && kept.len() < before.slots.len() {
        assert(before.slots[1].released);
    }
    assert(kept.len() == 0 || kept.len() == 1 || kept.len() == 2);
    assert(byte_len * 1 == byte_len && byte_len * 2 == 2 * byte_len);
}

/// A frame is put in a slot of its own: the slot holds the whole frame, lies inside the pool, and
/// slots do not overlap.
pub proof fn law_slots_lie_side_by_side(
    before: PoolModel,
    after: PoolModel,
    size: FrameSize,
    byte_len: usize,
    result: Result<SlotGrant>,
)
    requires
        is_handed_out(before, after, size, byte_len, result),
        before.slots.len() <= 2,
    ensures
        result matches Ok(grant) ==> {
            &&& grant.offset == grant.index * byte_len
            &&& grant.offset + byte_len <= grant.pool_len
            &&& grant.pool_len == after.slots.len() * byte_len
            &&& grant.index < after.slots.len() <= 2
            &&& after.slots[grant.index as int].id == grant.release.slot_id
            &&& after.slot_len == byte_len
        },
{
    let kept = kept_slots(before.slot_len, before.slots, byte_len);
    lemma_compacted(before.slots);
    lemma_first_released_is_released(released_flags(kept));
    if let Ok(grant) = result {
        assert(0 <= grant.index * byte_len && grant.index * byte_len + byte_len
            <= after.slots.len() * byte_len) by (nonlinear_arith)
            requires
                0 <= grant.index < after.slots.len(),
                0 <= byte_len,
        ;
        assert(byte_len * after.slots.len() == after.slots.len() * byte_len) by (nonlinear_arith);
    }
}

/// A slot that is free is taken before a new one is made, the first of them first; a new one is
/// made while there are fewer than the two that are allowed.
pub proof fn law_first_free_slot_is_taken(released: Seq<bool>, index: int)
    requires
        released.len() <= usize::MAX,
    ensures
        0 <= index < released.len() && released[index] && (forall|i: int|
            0 <= i < index ==> !#[trigger] released[i]) ==> slot_choice(released, released.len(), 2)
            == SlotChoice::Reuse(index as usize),
        (forall|i: int| 0 <= i < released.len() ==> !#[trigger] released[i]) ==> slot_choice(
            released,
            released.len(),
            2,
        ) == if released.len() < 2 {
            SlotChoice::Grow
        } else {
            SlotChoice::Skip
        },
        MAX_BUFFER_SLOTS == 2,
{
    if 0 <= index < released.len() && released[index] && (forall|i: int|
        0 <= i < index ==> !#[trigger] released[i]) {
        lemma_first_released(released, index);
    }
    if forall|i: int| 0 <= i < released.len() ==> !#[trigger] released[i] {
        lemma_none_released(released);
    }
}

/// A release frees the slot it is for and no other; slots that are given up are free ones, and the
/// first is kept.
pub proof fn law_release_frees_its_slot(slots: Seq<BufferSlot>, slot_id: u64, index: int)
    requires
        0 <= index < slots.len(),
    ensures
        with_released(slots, slot_id).len() == slots.len(),
        with_released(slots, slot_id)[index].id == slots[index].id,
        with_released(slots, slot_id)[index].released == (slots[index].released || slots[index].id
            == slot_id),
        !slots[index].released ==> index < compacted(slots).len() && compacted(slots)[index]
            == slots[index],
        compacted(slots).len() >= 1,
        compacted(slots).len() <= slots.len(),
    decreases slots.len(),
{
    lemma_compacted(slots);
    if slots.len() > 1 && slots.last().released {
        if index < slots.len() - 1 {
            law_release_frees_its_slot(slots.drop_last(), slot_id, index);
        } else {
            law_release_frees_its_slot(slots.drop_last(), slot_id, 0);
        }
    }
}

/// After a release of all slots a frame of the same size always finds a slot, the first one.
pub proof fn law_released_slots_are_used_again(
    before: PoolModel,
    after: PoolModel,
    size: FrameSize,
    byte_len: usize,
    result: Result<SlotGrant>,
)
    requires
        is_handed_out(before, after, size, byte_len, result),
        before.slot_len == byte_len,
        1 <= before.slots.len() <= 2,
        forall|i: int| 0 <= i < before.slots.len() ==> (#[trigger] before.slots[i]).released,
    ensures
        result matches Ok(grant) && grant.index == 0 && grant.release.slot_id == before.slots[0].id,
        after.slots.len() == 1,
{
    reveal_with_fuel(compacted, 3);
    let kept = compacted(before.slots);
    assert(kept.len() == 1 && kept[0] == before.slots[0]);
    assert(released_flags(kept)[0]);
    lemma_first_released(released_flags(kept), 0);
    assert(byte_len * kept.len() == byte_len) by (nonlinear_arith)
        requires
            kept.len() == 1,
    ;
}

/// The part of a frame that is shown anew is what was rendered, else the visible part of what was
/// damaged.
pub proof fn law_shown_part_is_what_was_rendered(
    rendered: Rect,
    damage: Rect,
    size: FrameSize,
    x: int,
    y: int,
)
    requires
        size.width <= i32::MAX,
        size.height <= i32::MAX,
    ensures
        redrawn(Some(rendered), damage, size) == rendered,
        shape::covers(redrawn(None, damage, size), x, y) <==> shape::covers(damage, x, y) && 0 <= x
            < size.width && 0 <= y < size.height,
{
    shape::law_clipping_keeps_the_visible_part(
        damage,
        size.width as int,
        size.height as int,
        x,
        y,
    );
}

/// Every slot that is made has a number of its own: it is the next one, and the one after it is
/// next from then on.
pub proof fn law_new_slots_are_numbered_anew(
    before: PoolModel,
    after: PoolModel,
    size: FrameSize,
    byte_len: usize,
    result: Result<SlotGrant>,
    i: int,
)
    requires
        is_handed_out(before, after, size, byte_len, result),
        forall|k: int|
            0 <= k < before.slots.len() ==> (#[trigger] before.slots[k]).id < before.next_id,
        0 <= i < after.slots.len(),
    ensures
        after.slots[i].id < after.next_id,
        before.next_id <= after.next_id <= before.next_id + 1,
{
    lemma_compacted(before.slots);
    let kept = kept_slots(before.slot_len, before.slots, byte_len);
    lemma_first_released_is_released(released_flags(kept));
    if i < kept.len() {
        assert(kept[i] == before.slots[i]);
    }
}

} // verus!
