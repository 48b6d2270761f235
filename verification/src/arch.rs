//! The target architectures that the boot protocol is defined for.

use vstd::prelude::*;

verus! {

/// A target architecture. The raw record differs between the two in which
/// fields are present, where the TLS alignment stands and how wide the
/// serial port address is.
#[derive(Clone, Copy, Debug, PartialEq, Eq, Structural)]
pub enum Arch {
    X86_64,
    Aarch64,
}

impl Arch {
    /// Whether the record carries the lowest physical memory address.
    pub open spec fn has_ram_start(self) -> bool {
        self == Arch::Aarch64
    }

    /// Whether the record carries a multiboot information address.
    pub open spec fn has_mb_info(self) -> bool {
        self == Arch::X86_64
    }

    /// The largest serial port address that the architecture can name:
    /// an I/O port of 16 bits on x86-64, a 32-bit address on AArch64.
    pub open spec fn uartport_max(self) -> int {
        match self {
            Arch::X86_64 => 0xffff,
            Arch::Aarch64 => 0xffff_ffff,
        }
    }
}

} // verus!
