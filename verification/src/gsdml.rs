//! The slot layout that a device description yields.

use vstd::prelude::*;

verus! {

/// One submodule that takes part in the cyclic exchange.
#[derive(Debug, Clone, Copy, PartialEq, Eq, Structural)]
pub struct IoSlot {
    pub slot: u16,
    pub subslot: u16,
    pub module_ident: u32,
    pub submodule_ident: u32,
    /// Bytes that the device sends.
    pub input_length: usize,
    /// Bytes that the controller sends.
    pub output_length: usize,
}

/// A submodule as the device itself reports it.
#[derive(Debug, Clone, Copy, PartialEq, Eq, Structural)]
pub struct DeviceSlot {
    pub slot: u16,
    pub subslot: u16,
    pub module_ident: u32,
    pub submodule_ident: u32,
}

} // verus!
