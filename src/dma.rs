//! The DMA descriptor unit: a latch for a source and a destination address.

use vstd::prelude::*;

verus! {

/// The 64-bit address made of a high and a low 32-bit half.
pub open spec fn join_halves(lo: u32, hi: u32) -> u64 {
    (hi as int * 0x1_0000_0000 + lo as int) as u64
}

/// A representation of a DMA backend's state.
pub struct DmaState {
    src: u64,
    dst: u64,
    done: bool,
}

impl DmaState {
    pub closed spec fn spec_src(&self) -> u64 {
        self.src
    }

    pub closed spec fn spec_dst(&self) -> u64 {
        self.dst
    }

    pub closed spec fn spec_done(&self) -> bool {
        self.done
    }

    /// A DMA unit at reset: both addresses zero, not done.
    pub fn new() -> (r: DmaState)
        ensures
            r.spec_src() == 0,
            r.spec_dst() == 0,
            !r.spec_done(),
    {
        DmaState { src: 0, dst: 0, done: false }
    }

    /// The latched source address.
    pub fn src(&self) -> (r: u64)
        ensures
            r == self.spec_src(),
    {
        self.src
    }

    /// The latched destination address.
    pub fn dst(&self) -> (r: u64)
        ensures
            r == self.spec_dst(),
    {
        self.dst
    }

    /// Whether the unit reports completion.
    pub fn done(&self) -> (r: bool)
        ensures
            r == self.spec_done(),
    {
        self.done
    }
}

impl Default for DmaState {
    fn default() -> (r: DmaState)
        ensures
            r.spec_src() == 0,
            r.spec_dst() == 0,
            !r.spec_done(),
    {
        DmaState::new()
    }
}

fn join(lo: u32, hi: u32) -> (r: u64)
    ensures
        r == join_halves(lo, hi),
{
    let r: u64 = (hi as u64) << 32u64 | (lo as u64);
    assert(r == join_halves(lo, hi)) by (bit_vector)
        requires
            r == (hi as u64) << 32u64 | (lo as u64),
    ;
    r
}

/// Implementation of the `dm.src` instruction: latch `(hi << 32) | lo` as
/// the source address.
pub fn banshee_dma_src(dma: &mut DmaState, lo: u32, hi: u32)
    ensures
        final(dma).spec_src() == join_halves(lo, hi),
        final(dma).spec_dst() == old(dma).spec_dst(),
        final(dma).spec_done() == old(dma).spec_done(),
{
    dma.src = join(lo, hi);
}

/// Implementation of the `dm.dst` instruction: latch `(hi << 32) | lo` as
/// the destination address.
pub fn banshee_dma_dst(dma: &mut DmaState, lo: u32, hi: u32)
    ensures
        final(dma).spec_dst() == join_halves(lo, hi),
        final(dma).spec_src() == old(dma).spec_src(),
        final(dma).spec_done() == old(dma).spec_done(),
{
    dma.dst = join(lo, hi);
}

} // verus!
