//! What the monitor shows of one NVIDIA GPU.

use vstd::prelude::*;

verus! {

/// Statistics of one GPU, as the NVIDIA management library reports them:
/// its name, temperature (°C), memory (bytes free, total and used), clocks
/// (MHz), PCIe link generation and width (current and maximum), number of
/// CUDA cores and architecture name.
pub struct NvGpuStat {
    pub name: String,
    pub temperature: u32,
    pub mem_free: u64,
    pub mem_total: u64,
    pub mem_used: u64,
    pub graphics_clock: u32,
    pub mem_clock: u32,
    pub link_gen: u32,
    pub link_width: u32,
    pub max_link_gen: u32,
    pub max_link_width: u32,
    pub cuda_cores: u32,
    pub architecture: String,
}

} // verus!
