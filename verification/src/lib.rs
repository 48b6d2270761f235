//! Boot handoff between a unikernel loader and the kernel it starts.
//!
//! The loader reads the entry version note of a kernel image, fills a boot
//! information record, and enters the kernel once on every core. The kernel
//! turns the raw record into a typed description of the machine and reports
//! each core that has come up through the record's online counter.

pub mod arch;
pub mod boot_info;
pub mod bringup;
pub mod fields;
pub mod layout;
pub mod le;
pub mod note;
pub mod raw;
pub mod wire;

pub use crate::boot_info::BootInfo;
pub use crate::boot_info::TlsInfo;
pub use crate::note::HERMIT_ENTRY_VERSION;
pub use crate::note::NT_HERMIT_ENTRY_VERSION;
pub use crate::raw::RawBootInfo;
