//! Emulation of the PCI MSI-X capability for virtual devices, together with
//! the small pieces of hypervisor bookkeeping that surround it.

pub mod allocator;
pub mod bits;
pub mod capability;
pub mod codec;
pub mod dtb;
pub mod loader;
pub mod msix;
pub mod msr;
pub mod num;
pub mod percpu;
pub mod segment;
