//! The kernel's typed description of the machine it was started on.

use crate::arch::Arch;
use std::ops::Range;
use vstd::prelude::*;

verus! {

/// The thread-local storage template of the kernel image.
#[derive(Clone, Copy, Debug, PartialEq, Eq, Structural)]
pub struct TlsInfo {
    /// Where the template starts.
    pub start: u64,
    /// The number of bytes of the template that the image holds.
    pub filesz: u64,
    /// The number of bytes that the template takes in memory.
    pub memsz: u64,
    /// The alignment of the template.
    pub align: u64,
}

/// What the record holds for one architecture only.
#[derive(Clone, Copy, Debug, PartialEq, Eq, Structural)]
#[allow(inconsistent_fields)]
pub enum Platform {
    X86_64 {
        /// The I/O port of the serial port.
        uartport: u16,
        /// MULTIBOOT ONLY: the address of the multiboot information.
        mb_info: u64,
    },
    Aarch64 {
        /// The address of the serial port.
        uartport: u32,
        /// The lowest physical memory address.
        ram_start: u64,
    },
}

impl Platform {
    /// The architecture that these values belong to.
    pub open spec fn spec_arch(self) -> Arch {
        match self {
            Platform::X86_64 { .. } => Arch::X86_64,
            Platform::Aarch64 { .. } => Arch::Aarch64,
        }
    }

    /// The architecture that these values belong to.
    #[verifier::when_used_as_spec(spec_arch)]
    pub fn arch(self) -> (arch: Arch)
        ensures
            arch == self.spec_arch(),
    {
        match self {
            Platform::X86_64 { .. } => Arch::X86_64,
            Platform::Aarch64 { .. } => Arch::Aarch64,
        }
    }
}

/// The boot information as the kernel reads it.
#[derive(Clone, Copy, Debug, PartialEq, Eq, Structural)]
pub struct BootInfo {
    /// Highest physical memory address.
    pub limit: u64,
    /// Start address of the loaded kernel image.
    pub base: u64,
    /// Size of the loaded kernel image in bytes.
    pub image_size: u64,
    /// Kernel image TLS information.
    pub tls_info: TlsInfo,
    /// The values that depend on the architecture.
    pub platform: Platform,
    /// Discriminant determines if running on uhyve.
    pub uhyve: u8,
    /// UHYVE ONLY: Boot time as Unix timestamp in microseconds.
    pub boot_gtod: u64,
    /// UHYVE ONLY: CPU frequency in MHz.
    pub cpu_freq: u16,
    /// UHYVE ONLY: Total number of CPUs available.
    pub possible_cpus: u32,
    /// MULTIBOOT ONLY: Command line pointer.
    pub cmdline: u64,
    /// MULTIBOOT ONLY: Command line length.
    pub cmdsize: u64,
}

impl BootInfo {
    /// Whether the kernel was started by uhyve.
    pub open spec fn spec_is_uhyve(&self) -> bool {
        self.uhyve != 0
    }

    /// Whether the kernel was started by uhyve.
    #[verifier::when_used_as_spec(spec_is_uhyve)]
    pub fn is_uhyve(&self) -> (b: bool)
        ensures
            b == self.spec_is_uhyve(),
    {
        self.uhyve != 0
    }

    /// The memory bounds are in order and the kernel image fits between them.
    pub open spec fn spec_has_valid_geometry(&self) -> bool {
        &&& self.limit > self.base
        &&& self.image_size <= self.limit - self.base
    }

    /// Tells whether the memory bounds are in order and the kernel image fits
    /// between them. A loader must not start a kernel on a record of which
    /// this does not hold.
    #[verifier::when_used_as_spec(spec_has_valid_geometry)]
    pub fn has_valid_geometry(&self) -> (b: bool)
        ensures
            b == self.spec_has_valid_geometry(),
    {
        self.limit > self.base && self.image_size <= self.limit - self.base
    }

    /// The memory between the two bounds of the record: from `base` up to,
    /// but without, `limit`.
    pub fn memory_range(&self) -> (range: Range<u64>)
        ensures
            range.start == self.base,
            range.end == self.limit,
    {
        Range { start: self.base, end: self.limit }
    }

    /// The memory that the kernel image takes: `image_size` bytes from `base`
    /// on. On a record with valid geometry it lies within the memory between
    /// the two bounds.
    pub fn image_range(&self) -> (range: Range<u64>)
        requires
            self.spec_has_valid_geometry(),
        ensures
            range.start == self.base,
            range.end == self.base + self.image_size,
            range.end <= self.limit,
    {
        Range { start: self.base, end: self.base + self.image_size }
    }
}

} // verus!
