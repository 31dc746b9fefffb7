//! The stream register (SSR) address generator.
//!
//! An SSR walks up to four nested dimensions, each with its own bound and
//! stride, and may hand out each address several times before it moves on.
//! It is configured and stepped through register-mapped operations.

use vstd::prelude::*;

verus! {

/// The sum of two 32-bit words modulo 2^32.
pub open spec fn add_mod_u32(x: u32, y: u32) -> u32 {
    ((x as int + y as int) % 0x1_0000_0000) as u32
}

/// The successor of a 16-bit counter modulo 2^16.
pub open spec fn inc_mod_u16(x: u16) -> u16 {
    ((x as int + 1) % 0x1_0000) as u16
}

/// The abstract state of an SSR.
pub struct SsrView {
    pub index: Seq<u32>,
    pub bound: Seq<u32>,
    pub stride: Seq<u32>,
    pub ptr: u32,
    pub repeat_count: u16,
    pub repeat_bound: u16,
    pub write: bool,
    pub dims: u8,
    pub done: bool,
}

/// The status word of configuration register 0: the pointer with the
/// `done` flag in bit 31, the `write` flag in bit 30 and `dims` in bits
/// 29-28 or'ed over it.
pub open spec fn status_word(ptr: u32, done: bool, write: bool, dims: u8) -> u32 {
    ptr | ((if done { 1u32 } else { 0u32 }) << 31u32) | ((if write { 1u32 } else { 0u32 })
        << 30u32) | ((dims as u32) << 28u32)
}

/// The configuration register that byte offset `addr` selects.
pub open spec fn cfg_reg(addr: u32) -> u32 {
    addr / 8
}

/// The state after writing `value` to the configuration register at byte
/// offset `addr`.
pub open spec fn write_cfg_view(s: SsrView, addr: u32, value: u32) -> SsrView {
    let reg = cfg_reg(addr);
    if reg == 0 {
        SsrView {
            ptr: value & 0x0FFF_FFFF,
            done: (value >> 31u32) & 1 != 0,
            write: (value >> 30u32) & 1 != 0,
            dims: ((value >> 28u32) & 3) as u8,
            ..s
        }
    } else if reg == 1 {
        SsrView { repeat_count: value as u16, ..s }
    } else if 2 <= reg <= 5 {
        SsrView { bound: s.bound.update(reg - 2, value), ..s }
    } else if 6 <= reg <= 9 {
        SsrView { stride: s.stride.update(reg - 6, value), ..s }
    } else if 24 <= reg <= 27 {
        SsrView { ptr: value, done: false, write: false, dims: (reg - 24) as u8, ..s }
    } else if 28 <= reg <= 31 {
        SsrView { ptr: value, done: false, write: true, dims: (reg - 28) as u8, ..s }
    } else {
        s
    }
}

/// What a read of the configuration register at byte offset `addr`
/// returns.
pub open spec fn read_cfg_view(s: SsrView, addr: u32) -> u32 {
    let reg = cfg_reg(addr);
    if reg == 0 {
        status_word(s.ptr, s.done, s.write, s.dims)
    } else if reg == 1 {
        s.repeat_count as u32
    } else if 2 <= reg <= 5 {
        s.bound[reg - 2]
    } else if 6 <= reg <= 9 {
        s.stride[reg - 6]
    } else {
        0
    }
}

/// The first dimension from `i` up to `dims` whose index has not reached
/// its bound, or `dims + 1` where every one has.
pub open spec fn first_open_dim(index: Seq<u32>, bound: Seq<u32>, dims: int, i: int) -> int
    decreases dims + 1 - i,
{
    if i <= dims {
        if index[i] != bound[i] {
            i
        } else {
            first_open_dim(index, bound, dims, i + 1)
        }
    } else {
        dims + 1
    }
}

/// The scan from `i` stops at `i` or beyond, and at most one past `dims`.
pub proof fn lemma_first_open_dim_range(index: Seq<u32>, bound: Seq<u32>, dims: int, i: int)
    requires
        0 <= i <= dims + 1,
    ensures
        i <= first_open_dim(index, bound, dims, i) <= dims + 1,
    decreases dims + 1 - i,
{
    if i <= dims && index[i] == bound[i] {
        lemma_first_open_dim_range(index, bound, dims, i + 1);
    }
}

/// The state after one step of the address generator.
///
/// Once the current address has been repeated `repeat_bound` times, the
/// index advances like an odometer: dimensions that reached their bound
/// reset to 0, the first that did not is incremented, and the pointer moves
/// by the stride of the dimension where the scan stopped. Where every
/// dimension carried, the stream is done. Before that, only the repeat
/// counter moves.
pub open spec fn step_view(s: SsrView) -> SsrView {
    if s.repeat_count == s.repeat_bound {
        let k = first_open_dim(s.index, s.bound, s.dims as int, 0);
        let last = if k <= s.dims { k } else { s.dims as int };
        SsrView {
            index: Seq::new(
                4,
                |j: int|
                    if j < k {
                        0u32
                    } else if j == k && k <= s.dims {
                        add_mod_u32(s.index[j], 1)
                    } else {
                        s.index[j]
                    },
            ),
            ptr: add_mod_u32(s.ptr, s.stride[last]),
            repeat_count: 0,
            done: k > s.dims,
            ..s
        }
    } else {
        SsrView { repeat_count: inc_mod_u16(s.repeat_count), ..s }
    }
}

/// A representation of a single SSR address generator's state.
pub struct SsrState {
    index: [u32; 4],
    bound: [u32; 4],
    stride: [u32; 4],
    ptr: u32,
    repeat_count: u16,
    repeat_bound: u16,
    write: bool,
    dims: u8,
    done: bool,
}

impl View for SsrState {
    type V = SsrView;

    closed spec fn view(&self) -> SsrView {
        SsrView {
            index: self.index@,
            bound: self.bound@,
            stride: self.stride@,
            ptr: self.ptr,
            repeat_count: self.repeat_count,
            repeat_bound: self.repeat_bound,
            write: self.write,
            dims: self.dims,
            done: self.done,
        }
    }
}

/// A view is well formed when it has four dimensions and `dims` selects
/// one of them.
pub open spec fn view_wf(s: SsrView) -> bool {
    &&& s.index.len() == 4
    &&& s.bound.len() == 4
    &&& s.stride.len() == 4
    &&& s.dims <= 3
}

impl SsrState {
    pub open spec fn wf(&self) -> bool {
        view_wf(self@)
    }

    /// An SSR at reset: every field zero or false.
    pub fn new() -> (r: SsrState)
        ensures
            r.wf(),
            r@.index == Seq::new(4, |i: int| 0u32),
            r@.bound == Seq::new(4, |i: int| 0u32),
            r@.stride == Seq::new(4, |i: int| 0u32),
            r@.ptr == 0,
            r@.repeat_count == 0,
            r@.repeat_bound == 0,
            !r@.write,
            r@.dims == 0,
            !r@.done,
    {
        let r = SsrState {
            index: [0u32; 4],
            bound: [0u32; 4],
            stride: [0u32; 4],
            ptr: 0,
            repeat_count: 0,
            repeat_bound: 0,
            write: false,
            dims: 0,
            done: false,
        };
        assert(r.index@ =~= Seq::new(4, |i: int| 0u32));
        assert(r.bound@ =~= Seq::new(4, |i: int| 0u32));
        assert(r.stride@ =~= Seq::new(4, |i: int| 0u32));
        r
    }

    /// The index of dimension `i`.
    pub fn index(&self, i: usize) -> (r: u32)
        requires
            self.wf(),
            i < 4,
        ensures
            r == self@.index[i as int],
    {
        self.index[i]
    }

    /// The bound of dimension `i`.
    pub fn bound(&self, i: usize) -> (r: u32)
        requires
            self.wf(),
            i < 4,
        ensures
            r == self@.bound[i as int],
    {
        self.bound[i]
    }

    /// The stride of dimension `i`.
    pub fn stride(&self, i: usize) -> (r: u32)
        requires
            self.wf(),
            i < 4,
        ensures
            r == self@.stride[i as int],
    {
        self.stride[i]
    }

    /// The current pointer.
    pub fn ptr(&self) -> (r: u32)
        ensures
            r == self@.ptr,
    {
        self.ptr
    }

    /// How many times the current address has been repeated.
    pub fn repeat_count(&self) -> (r: u16)
        ensures
            r == self@.repeat_count,
    {
        self.repeat_count
    }

    /// How many times each address is repeated.
    pub fn repeat_bound(&self) -> (r: u16)
        ensures
            r == self@.repeat_bound,
    {
        self.repeat_bound
    }

    /// Set how many times each address is repeated.
    pub fn set_repeat_bound(&mut self, bound: u16)
        requires
            old(self).wf(),
        ensures
            final(self)@ == (SsrView { repeat_bound: bound, ..old(self)@ }),
            final(self).wf(),
    {
        self.repeat_bound = bound;
    }

    /// Whether the stream writes.
    pub fn write(&self) -> (r: bool)
        ensures
            r == self@.write,
    {
        self.write
    }

    /// The number of active dimensions minus one.
    pub fn dims(&self) -> (r: u8)
        ensures
            r == self@.dims,
    {
        self.dims
    }

    /// Whether every dimension has carried.
    pub fn done(&self) -> (r: bool)
        ensures
            r == self@.done,
    {
        self.done
    }
}

impl Default for SsrState {
    fn default() -> (r: SsrState)
        ensures
            r.wf(),
            r@.index == Seq::new(4, |i: int| 0u32),
            r@.bound == Seq::new(4, |i: int| 0u32),
            r@.stride == Seq::new(4, |i: int| 0u32),
            r@.ptr == 0,
            r@.repeat_count == 0,
            r@.repeat_bound == 0,
            !r@.write,
            r@.dims == 0,
            !r@.done,
    {
        SsrState::new()
    }
}

/// Write to an SSR control register.
///
/// `addr` is a byte offset; the register is `addr / 8`. Register 0 takes
/// the pointer (low 28 bits) and the status bits, register 1 the repeat
/// count, 2 to 5 the bounds, 6 to 9 the strides; 24 to 27 start a read
/// stream and 28 to 31 a write stream over 1 to 4 dimensions. Writes to
/// any other register are ignored.
pub fn banshee_ssr_write_cfg(ssr: &mut SsrState, addr: u32, value: u32)
    requires
        old(ssr).wf(),
    ensures
        final(ssr).wf(),
        final(ssr)@ == write_cfg_view(old(ssr)@, addr, value),
{
    let reg: u32 = addr / 8;
    if reg == 0 {
        ssr.ptr = value & 0x0FFF_FFFF;
        ssr.done = (value >> 31u32) & 1 != 0;
        ssr.write = (value >> 30u32) & 1 != 0;
        let d: u32 = (value >> 28u32) & 3;
        assert(((value >> 28u32) & 3) <= 3) by (bit_vector);
        ssr.dims = d as u8;
    } else if reg == 1 {
        ssr.repeat_count = value as u16;
    } else if 2 <= reg && reg <= 5 {
        ssr.bound[(reg - 2) as usize] = value;
    } else if 6 <= reg && reg <= 9 {
        ssr.stride[(reg - 6) as usize] = value;
    } else if 24 <= reg && reg <= 27 {
        ssr.ptr = value;
        ssr.done = false;
        ssr.write = false;
        ssr.dims = (reg - 24) as u8;
    } else if 28 <= reg && reg <= 31 {
        ssr.ptr = value;
        ssr.done = false;
        ssr.write = true;
        ssr.dims = (reg - 28) as u8;
    }
}

/// Read from an SSR control register.
///
/// Registers 0 to 9 read back what `banshee_ssr_write_cfg` set, register 0
/// as the status word; every other register reads as 0. Reading changes
/// nothing.
pub fn banshee_ssr_read_cfg(ssr: &mut SsrState, addr: u32) -> (r: u32)
    requires
        old(ssr).wf(),
    ensures
        *final(ssr) == *old(ssr),
        r == read_cfg_view(old(ssr)@, addr),
{
    let reg: u32 = addr / 8;
    if reg == 0 {
        ssr.ptr | (ssr.done as u32) << 31u32 | (ssr.write as u32) << 30u32 | (ssr.dims as u32)
            << 28u32
    } else if reg == 1 {
        ssr.repeat_count as u32
    } else if 2 <= reg && reg <= 5 {
        ssr.bound[(reg - 2) as usize]
    } else if 6 <= reg && reg <= 9 {
        ssr.stride[(reg - 6) as usize]
    } else {
        0
    }
}

/// Generate the next address from an SSR.
///
/// Returns the pointer as it stood before the step, and advances the state
/// as `step_view` describes.
pub fn banshee_ssr_next(ssr: &mut SsrState) -> (r: u32)
    requires
        old(ssr).wf(),
    ensures
        r == old(ssr)@.ptr,
        final(ssr).wf(),
        final(ssr)@ == step_view(old(ssr)@),
{
    let ghost s0 = ssr@;
    let ptr: u32 = ssr.ptr;
    if ssr.repeat_count == ssr.repeat_bound {
        ssr.repeat_count = 0;
        let mut stride: u32 = 0;
        ssr.done = true;
        let dims: usize = ssr.dims as usize;
        let mut i: usize = 0;
        let mut stopped: bool = false;
        while i <= dims && !stopped
            invariant
                dims == s0.dims as int,
                view_wf(s0),
                i <= dims + 1,
                ssr.bound@ == s0.bound,
                ssr.stride@ == s0.stride,
                ssr.ptr == s0.ptr,
                ssr.repeat_count == 0,
                ssr.repeat_bound == s0.repeat_bound,
                ssr.write == s0.write,
                ssr.dims == s0.dims,
                !stopped ==> {
                    &&& first_open_dim(s0.index, s0.bound, dims as int, 0) == first_open_dim(
                        s0.index,
                        s0.bound,
                        dims as int,
                        i as int,
                    )
                    &&& ssr.index@ == Seq::new(4, |j: int| if j < i { 0u32 } else { s0.index[j] })
                    &&& ssr.done
                    &&& i > 0 ==> stride == s0.stride[i - 1]
                },
                stopped ==> {
                    &&& i <= dims
                    &&& first_open_dim(s0.index, s0.bound, dims as int, 0) == i
                    &&& ssr.index@ == Seq::new(
                        4,
                        |j: int|
                            if j < i {
                                0u32
                            } else if j == i {
                                add_mod_u32(s0.index[j], 1)
                            } else {
                                s0.index[j]
                            },
                    )
                    &&& !ssr.done
                    &&& stride == s0.stride[i as int]
                },
            decreases dims + 2 - i - (if stopped { 1int } else { 0int }),
        {
            stride = ssr.stride[i];
            if ssr.index[i] == ssr.bound[i] {
                ssr.index[i] = 0;
                assert(ssr.index@ =~= Seq::new(
                    4,
                    |j: int| if j < i + 1 { 0u32 } else { s0.index[j] },
                ));
                i = i + 1;
            } else {
                let v: u32 = ssr.index[i].wrapping_add(1);
                assert(v == add_mod_u32(s0.index[i as int], 1));
                ssr.index[i] = v;
                ssr.done = false;
                stopped = true;
                assert(ssr.index@ =~= Seq::new(
                    4,
                    |j: int|
                        if j < i {
                            0u32
                        } else if j == i {
                            add_mod_u32(s0.index[j], 1)
                        } else {
                            s0.index[j]
                        },
                ));
            }
        }
        let np: u32 = ssr.ptr.wrapping_add(stride);
        assert(np == add_mod_u32(s0.ptr, stride));
        ssr.ptr = np;
        assert(ssr.index@ =~= step_view(s0).index);
        assert(ssr@ =~= step_view(s0));
    } else {
        let c: u16 = ssr.repeat_count.wrapping_add(1);
        assert(c == inc_mod_u16(s0.repeat_count));
        ssr.repeat_count = c;
        assert(ssr@ =~= step_view(s0));
    }
    ptr
}

/// Every configuration write keeps the state well formed.
pub proof fn lemma_write_cfg_wf(s: SsrView, addr: u32, value: u32)
    requires
        view_wf(s),
    ensures
        view_wf(write_cfg_view(s, addr, value)),
{
    assert(((value >> 28u32) & 3) <= 3) by (bit_vector);
}

/// A bound or stride register reads back the value last written to it,
/// and register 1 the low 16 bits of it.
pub proof fn lemma_write_read_cfg(s: SsrView, addr: u32, value: u32)
    requires
        view_wf(s),
        1 <= cfg_reg(addr) <= 9,
    ensures
        cfg_reg(addr) == 1 ==> read_cfg_view(write_cfg_view(s, addr, value), addr) == value
            & 0xFFFF,
        2 <= cfg_reg(addr) ==> read_cfg_view(write_cfg_view(s, addr, value), addr) == value,
{
    assert((value as u16) as u32 == value & 0xFFFF) by (bit_vector);
}

/// A configuration write leaves every register of another kind as it was:
/// a bound write touches no stride, a stride write no bound, and neither
/// touches the pointer, the status bits or the repeat counters.
pub proof fn lemma_write_cfg_frames(s: SsrView, addr: u32, value: u32, other: u32)
    requires
        view_wf(s),
        2 <= cfg_reg(addr) <= 9,
        cfg_reg(other) != cfg_reg(addr),
    ensures
        read_cfg_view(write_cfg_view(s, addr, value), other) == read_cfg_view(s, other),
{
}

/// Register 0 reads back exactly the word last written to it: the low 28
/// bits land in the pointer and the top four in the status bits, and the
/// read packs them together again.
pub proof fn lemma_status_round_trip(s: SsrView, value: u32)
    requires
        view_wf(s),
    ensures
        read_cfg_view(write_cfg_view(s, 0, value), 0) == value,
{
    assert(((value & 0x0FFF_FFFF) | ((if (value >> 31u32) & 1 != 0 { 1u32 } else { 0u32 })
        << 31u32) | ((if (value >> 30u32) & 1 != 0 { 1u32 } else { 0u32 }) << 30u32) | ((((
    value >> 28u32) & 3) as u8 as u32) << 28u32)) == value) by (bit_vector);
}

/// While the repeat budget is not spent, a step hands out the same address
/// again: only the repeat counter moves.
pub proof fn lemma_step_repeats(s: SsrView)
    requires
        view_wf(s),
        s.repeat_count != s.repeat_bound,
    ensures
        step_view(s) == (SsrView { repeat_count: inc_mod_u16(s.repeat_count), ..s }),
        step_view(s).ptr == s.ptr,
        s.repeat_count < s.repeat_bound ==> step_view(s).repeat_count == s.repeat_count + 1,
{
}

/// Once the repeat budget is spent, a step restarts the repeat counter and
/// moves the innermost dimension like an odometer: an index short of its
/// bound is incremented and the pointer moves by that dimension's stride;
/// an index at its bound resets to 0 and carries into the next dimension,
/// or, where there is none, ends the stream.
pub proof fn lemma_step_carries(s: SsrView)
    requires
        view_wf(s),
        s.repeat_count == s.repeat_bound,
    ensures
        step_view(s).repeat_count == 0,
        view_wf(step_view(s)),
        s.index[0] != s.bound[0] ==> {
            &&& step_view(s).index == s.index.update(0, add_mod_u32(s.index[0], 1))
            &&& step_view(s).ptr == add_mod_u32(s.ptr, s.stride[0])
            &&& !step_view(s).done
        },
        s.index[0] == s.bound[0] ==> step_view(s).index[0] == 0,
        s.index[0] == s.bound[0] && s.dims == 0 ==> {
            &&& step_view(s).index == s.index.update(0, 0)
            &&& step_view(s).ptr == add_mod_u32(s.ptr, s.stride[0])
            &&& step_view(s).done
        },
        s.index[0] == s.bound[0] && s.dims >= 1 && s.index[1] != s.bound[1] ==> {
            &&& step_view(s).index == s.index.update(0, 0).update(1, add_mod_u32(s.index[1], 1))
            &&& step_view(s).ptr == add_mod_u32(s.ptr, s.stride[1])
            &&& !step_view(s).done
        },
{
    reveal_with_fuel(first_open_dim, 3);
    lemma_first_open_dim_range(s.index, s.bound, s.dims as int, 0);
    if s.dims >= 1 {
        lemma_first_open_dim_range(s.index, s.bound, s.dims as int, 1);
    }
    let t = step_view(s);
    if s.index[0] != s.bound[0] {
        assert(t.index =~= s.index.update(0, add_mod_u32(s.index[0], 1)));
    } else if s.dims == 0 {
        assert(t.index =~= s.index.update(0, 0));
    } else if s.index[1] != s.bound[1] {
        assert(t.index =~= s.index.update(0, 0).update(1, add_mod_u32(s.index[1], 1)));
    }
}

} // verus!
