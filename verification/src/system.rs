//! System components: native functionality that the runtime offers to
//! components through host-defined interfaces.

use vstd::prelude::*;

verus! {

/// WASI system component that provides standard WASI functionality
/// (filesystem, stdio, environment variables, ...).
#[derive(Clone, Copy, Debug)]
pub struct WasiSystem;

impl WasiSystem {
    /// The WASI system component.
    pub fn new() -> (w: Self) {
        WasiSystem
    }
}

impl Default for WasiSystem {
    /// The WASI system component.
    fn default() -> (w: Self) {
        WasiSystem::new()
    }
}

/// Exhaustive enum of all system components supported by the runtime.
#[derive(Clone, Copy, Debug)]
pub enum SystemTarget {
    /// Standard WASI (WebAssembly System Interface) functionality.
    Wasi(WasiSystem),
}

impl SystemTarget {
    /// The WIT interface name that this system component provides, if it
    /// has one. WASI has none: its interfaces are known implicitly and do
    /// not follow the interface naming convention.
    pub fn interface_name(&self) -> (r: Option<&str>)
        ensures
            r is None,
    {
        match self {
            SystemTarget::Wasi(_) => None,
        }
    }
}

} // verus!
