//! The execution engine's host-side state and the callback dispatch tables
//! that translated code reaches through a `Cpu` handle.
//!
//! Translated code observes or changes host state only through the four
//! callbacks of `Cpu`: a memory load, a memory store, a CSR read and a CSR
//! write. Each decodes a small, fixed table; everything outside it reads as
//! zero or is ignored.

use vstd::prelude::*;

verus! {

/// Address of the register holding the start of the TCDM.
pub const TCDM_START_ADDR: u32 = 0x4000_0000;

/// Address of the register holding the end of the TCDM.
pub const TCDM_END_ADDR: u32 = 0x4000_0008;

/// Address of the register holding the number of cores.
pub const NR_CORES_ADDR: u32 = 0x4000_0010;

/// Address of the scratch register, which holds the exit code.
pub const SCRATCH_REG_ADDR: u32 = 0x4000_0020;

/// Value read from `TCDM_START_ADDR`.
pub const TCDM_START: u32 = 0x42000;

/// Value read from `TCDM_END_ADDR`.
pub const TCDM_END: u32 = 0x43000;

/// Value read from `NR_CORES_ADDR`: a single core is emulated.
pub const NR_CORES: u32 = 1;

/// The CSR number of `mhartid`.
pub const CSR_MHARTID: u16 = 0xF14;

/// What a load from `addr` returns while the exit code is `exit_code`.
pub open spec fn load_value(exit_code: u32, addr: u32) -> u32 {
    if addr == TCDM_START_ADDR {
        TCDM_START
    } else if addr == TCDM_END_ADDR {
        TCDM_END
    } else if addr == NR_CORES_ADDR {
        NR_CORES
    } else if addr == SCRATCH_REG_ADDR {
        exit_code
    } else {
        0
    }
}

/// The exit code after a store of `value` to `addr`.
pub open spec fn exit_code_after_store(exit_code: u32, addr: u32, value: u32) -> u32 {
    if addr == SCRATCH_REG_ADDR {
        value
    } else {
        exit_code
    }
}

/// What a read of CSR `csr` returns: the single hart has id 0, and every
/// other CSR reads as 0.
pub open spec fn csr_value(csr: u16) -> u32 {
    0
}

/// An execution engine: the state that outlives one CPU and the two
/// optimization switches.
pub struct Engine {
    /// The exit code set by the binary.
    pub exit_code: u32,
    /// Optimize the intermediate representation before compiling it.
    pub opt_llvm: bool,
    /// Optimize during JIT compilation.
    pub opt_jit: bool,
}

impl Engine {
    /// Create a new execution engine: exit code 0, both optimizations on.
    pub fn new() -> (r: Engine)
        ensures
            r.exit_code == 0,
            r.opt_llvm,
            r.opt_jit,
    {
        Engine { exit_code: 0, opt_llvm: true, opt_jit: true }
    }

    /// The optimization level for JIT compilation: 3 when `opt_jit` is
    /// set, else 0.
    pub fn jit_opt_level(&self) -> (r: u32)
        ensures
            r == (if self.opt_jit { 3u32 } else { 0u32 }),
    {
        if self.opt_jit {
            3
        } else {
            0
        }
    }
}

/// A representation of a single CPU core's state.
pub struct CpuState {
    regs: [u32; 32],
    pc: u32,
    instret: u64,
}

impl CpuState {
    pub closed spec fn spec_regs(&self) -> Seq<u32> {
        self.regs@
    }

    pub closed spec fn spec_pc(&self) -> u32 {
        self.pc
    }

    pub closed spec fn spec_instret(&self) -> u64 {
        self.instret
    }

    /// A core at reset: every register, the program counter and the
    /// retired-instruction count are zero.
    pub fn new() -> (r: CpuState)
        ensures
            r.spec_regs() == Seq::new(32, |i: int| 0u32),
            r.spec_pc() == 0,
            r.spec_instret() == 0,
    {
        let r = CpuState { regs: [0u32; 32], pc: 0, instret: 0 };
        assert(r.regs@ =~= Seq::new(32, |i: int| 0u32));
        r
    }

    /// General register `i`.
    pub fn reg(&self, i: usize) -> (r: u32)
        requires
            i < 32,
        ensures
            r == self.spec_regs()[i as int],
    {
        self.regs[i]
    }

    /// The program counter.
    pub fn pc(&self) -> (r: u32)
        ensures
            r == self.spec_pc(),
    {
        self.pc
    }

    /// The number of retired instructions.
    pub fn instret(&self) -> (r: u64)
        ensures
            r == self.spec_instret(),
    {
        self.instret
    }
}

impl Default for CpuState {
    fn default() -> (r: CpuState)
        ensures
            r.spec_regs() == Seq::new(32, |i: int| 0u32),
            r.spec_pc() == 0,
            r.spec_instret() == 0,
    {
        CpuState::new()
    }
}

/// A CPU handle passed to the translated code: a reference to the engine
/// and the core's own state.
pub struct Cpu<'a> {
    engine: &'a mut Engine,
    state: CpuState,
}

impl<'a> Cpu<'a> {
    pub closed spec fn spec_engine(&self) -> Engine {
        *self.engine
    }

    pub closed spec fn spec_state(&self) -> CpuState {
        self.state
    }

    /// Create a new CPU in a default state.
    pub fn new(engine: &'a mut Engine) -> (r: Cpu<'a>)
        ensures
            r.spec_engine() == *old(engine),
            r.spec_state().spec_regs() == Seq::new(32, |i: int| 0u32),
            r.spec_state().spec_pc() == 0,
            r.spec_state().spec_instret() == 0,
    {
        Cpu { engine, state: CpuState::new() }
    }

    /// The engine this CPU runs under.
    pub fn engine(&self) -> (r: &Engine)
        ensures
            *r == self.spec_engine(),
    {
        self.engine
    }

    /// The core's state.
    pub fn state(&self) -> (r: &CpuState)
        ensures
            *r == self.spec_state(),
    {
        &self.state
    }

    /// A load of `8 << size` bits from `addr`: the TCDM bounds, the core
    /// count and the exit code at their addresses, 0 anywhere else.
    pub fn binary_load(&self, addr: u32, size: u8) -> (r: u32)
        ensures
            r == load_value(self.spec_engine().exit_code, addr),
    {
        if addr == TCDM_START_ADDR {
            TCDM_START
        } else if addr == TCDM_END_ADDR {
            TCDM_END
        } else if addr == NR_CORES_ADDR {
            NR_CORES
        } else if addr == SCRATCH_REG_ADDR {
            self.engine.exit_code
        } else {
            0
        }
    }

    /// A store of `value` to `addr`: the scratch register takes it as the
    /// exit code, and a store anywhere else changes nothing.
    pub fn binary_store(&mut self, addr: u32, value: u32, size: u8)
        ensures
            final(self).spec_engine() == (Engine {
                exit_code: exit_code_after_store(old(self).spec_engine().exit_code, addr, value),
                ..old(self).spec_engine()
            }),
            final(self).spec_state() == old(self).spec_state(),
    {
        if addr == SCRATCH_REG_ADDR {
            self.engine.exit_code = value;
        }
    }

    /// A read of CSR `csr`: `mhartid` is 0, and so is every other CSR.
    pub fn binary_csr_read(&self, csr: u16) -> (r: u32)
        ensures
            r == csr_value(csr),
    {
        if csr == CSR_MHARTID {
            0
        } else {
            0
        }
    }

    /// A write of `value` to CSR `csr`: no CSR is writable, and the handle
    /// is shared, so nothing changes.
    pub fn binary_csr_write(&self, csr: u16, value: u32) {
    }
}

/// A load from the scratch register returns the value last stored there.
pub proof fn lemma_scratch_round_trip(exit_code: u32, value: u32)
    ensures
        load_value(exit_code_after_store(exit_code, SCRATCH_REG_ADDR, value), SCRATCH_REG_ADDR)
            == value,
{
}

/// A store to any address but the scratch register leaves what every load
/// returns as it was.
pub proof fn lemma_store_elsewhere_unobservable(exit_code: u32, addr: u32, value: u32, other: u32)
    requires
        addr != SCRATCH_REG_ADDR,
    ensures
        exit_code_after_store(exit_code, addr, value) == exit_code,
        load_value(exit_code_after_store(exit_code, addr, value), other) == load_value(
            exit_code,
            other,
        ),
{
}

/// Loads from the four mapped registers return the TCDM bounds, the core
/// count and the exit code, whatever the exit code is; every other address
/// reads as 0.
pub proof fn lemma_load_map(exit_code: u32, addr: u32)
    ensures
        load_value(exit_code, TCDM_START_ADDR) == 0x42000,
        load_value(exit_code, TCDM_END_ADDR) == 0x43000,
        load_value(exit_code, NR_CORES_ADDR) == 1,
        load_value(exit_code, SCRATCH_REG_ADDR) == exit_code,
        addr != TCDM_START_ADDR && addr != TCDM_END_ADDR && addr != NR_CORES_ADDR && addr
            != SCRATCH_REG_ADDR ==> load_value(exit_code, addr) == 0,
{
}

} // verus!
