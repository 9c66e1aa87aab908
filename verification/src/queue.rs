//! The counters of a virtio queue and the flags of a descriptor, as far as
//! they can be judged without the memory of the guest.

use vstd::prelude::*;

verus! {

/// The flag of a descriptor that is followed by another one.
pub const VIRTQ_DESC_F_NEXT: u16 = 0x1;

/// The flag of a descriptor that the device writes and the driver reads.
pub const VIRTQ_DESC_F_WRITE: u16 = 0x2;

/// The counters of a queue.
#[derive(Debug, Clone, Copy, PartialEq, Eq, Structural)]
pub struct Queue {
    /// The greatest size that the device supports.
    pub max_size: u16,
    /// The size that the driver has chosen.
    pub size: u16,
    /// Whether the driver has made the queue ready.
    pub ready: bool,
    /// The index of the next descriptor chain that the device takes. It
    /// counts modulo 65536.
    pub next_avail: u16,
}

impl Queue {
    /// A queue of at most `max_size` descriptors, of that size, not ready,
    /// with nothing taken yet.
    pub fn new(max_size: u16) -> (r: Self)
        ensures
            r == (Queue { max_size, size: max_size, ready: false, next_avail: 0 }),
    {
        Queue { max_size, size: max_size, ready: false, next_avail: 0 }
    }

    /// The greatest size that the device supports.
    pub fn get_max_size(&self) -> (r: u16)
        ensures
            r == self.max_size,
    {
        self.max_size
    }

    /// The size of the queue in use: the size that the driver has chosen, but
    /// no more than the device supports.
    pub fn actual_size(&self) -> (r: u16)
        ensures
            r <= self.size,
            r <= self.max_size,
            r == self.size || r == self.max_size,
    {
        if self.size <= self.max_size {
            self.size
        } else {
            self.max_size
        }
    }

    /// The number of descriptor chains that the driver has made available and
    /// the device has not taken, where `avail_idx` is the index that the
    /// driver has published. Both indices count modulo 65536.
    pub fn len(&self, avail_idx: u16) -> (r: u16)
        ensures
            r as int == (avail_idx - self.next_avail) % 0x10000,
    {
        avail_idx.wrapping_sub(self.next_avail)
    }

    /// Whether no descriptor chain is available.
    pub fn is_empty(&self, avail_idx: u16) -> (r: bool)
        ensures
            r == (avail_idx == self.next_avail),
    {
        self.len(avail_idx) == 0
    }

    /// Counts a descriptor chain as taken.
    pub fn pop(&mut self)
        ensures
            final(self).next_avail as int == (old(self).next_avail + 1) % 0x10000,
            final(self).max_size == old(self).max_size,
            final(self).size == old(self).size,
            final(self).ready == old(self).ready,
    {
        self.next_avail = self.next_avail.wrapping_add(1);
    }

    /// Undoes the last `pop`: the chain that was taken last is available again.
    pub fn undo_pop(&mut self)
        ensures
            final(self).next_avail as int == (old(self).next_avail - 1) % 0x10000,
            final(self).max_size == old(self).max_size,
            final(self).size == old(self).size,
            final(self).ready == old(self).ready,
    {
        self.next_avail = self.next_avail.wrapping_sub(1);
    }
}

/// After a chain was taken and the taking was undone, the queue is as it was.
pub proof fn law_undo_pop_restores(next_avail: u16)
    ensures
        ((next_avail + 1) % 0x10000 - 1) % 0x10000 == next_avail,
{
}

/// A descriptor of a chain.
#[derive(Debug, Clone, Copy, PartialEq, Eq, Structural)]
pub struct DescriptorChain {
    /// Index into the descriptor table.
    pub index: u16,
    /// Guest physical address of device specific data.
    pub addr: u64,
    /// Length of device specific data.
    pub len: u32,
    /// Includes next, write, and indirect bits.
    pub flags: u16,
    /// Index into the descriptor table of the next descriptor if flags has
    /// the next bit set.
    pub next: u16,
}

impl DescriptorChain {
    /// Whether another descriptor follows this one in its chain.
    pub fn has_next(&self) -> (r: bool)
        ensures
            r == (self.flags & VIRTQ_DESC_F_NEXT != 0),
    {
        self.flags & VIRTQ_DESC_F_NEXT != 0
    }

    /// Whether the device writes this descriptor and the driver reads it. A
    /// descriptor that is not write-only is read-only.
    pub fn is_write_only(&self) -> (r: bool)
        ensures
            r == (self.flags & VIRTQ_DESC_F_WRITE != 0),
    {
        self.flags & VIRTQ_DESC_F_WRITE != 0
    }
}

} // verus!
