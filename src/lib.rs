//! Peripheral emulation and host-callback dispatch for a RISC-V-class
//! accelerator core: the stream register (SSR) address generator, the DMA
//! descriptor latch, and the memory-mapped register and CSR tables that
//! translated code calls back into.

pub mod dma;
pub mod engine;
pub mod ssr;
