//! The configuration of the NPU.
use vstd::prelude::*;

verus! {

/// The configuration of the NPU.
#[derive(Clone, Debug)]
pub struct NpuConfig {
    /// The size of the scratchpad, in 32-bit words.
    pub mem_size: usize,
}

impl NpuConfig {
    /// The default configuration: 1024 words (4 KiB) of scratchpad.
    pub fn new() -> (c: Self)
        ensures
            c.mem_size == 1024,
    {
        NpuConfig { mem_size: 1024 }
    }

    /// A configuration with `mem_size` words of scratchpad.
    pub fn with_mem_size(mem_size: usize) -> (c: Self)
        ensures
            c.mem_size == mem_size,
    {
        NpuConfig { mem_size }
    }
}

impl Default for NpuConfig {
    /// The default configuration.
    fn default() -> (c: Self)
        ensures
            c.mem_size == 1024,
    {
        NpuConfig::new()
    }
}

} // verus!
