//! The values of the raw record's fields, and how they correspond to the
//! typed boot information.

use crate::arch::Arch;
use crate::boot_info::BootInfo;
use crate::boot_info::Platform;
use crate::boot_info::TlsInfo;
use vstd::prelude::*;

verus! {

/// The magic number that older consumers identify a record by.
pub const RAW_MAGIC_NUMBER: u32 = 0xc0de_cafe;

/// The layout version that older consumers expect.
pub const RAW_VERSION: u32 = 1;

/// What a record holds in the fields that never change once it is built.
#[derive(Clone, Copy, Debug, PartialEq, Eq)]
pub struct RawFields {
    /// The architecture whose layout the record has.
    pub arch: Arch,
    /// Magic number (legacy)
    ///
    /// Used for identifying a record.
    pub magic_number: u32,
    /// Boot info version (legacy)
    ///
    /// Used to agree on the layout of the record.
    /// Not necessary since the introduction of the entry version note.
    pub version: u32,
    pub base: u64,
    /// AArch64 only; zero on x86-64.
    pub ram_start: u64,
    pub limit: u64,
    pub image_size: u64,
    pub tls_start: u64,
    pub tls_filesz: u64,
    pub tls_memsz: u64,
    pub tls_align: u64,
    /// The current percore address (legacy).
    pub current_percore_address: u64,
    /// Virtual host address (legacy)
    ///
    /// Was used for sharing a memory pool with uhyve at the same host and
    /// guest virtual address.
    pub host_logical_addr: u64,
    pub boot_gtod: u64,
    /// x86-64 only; zero on AArch64.
    pub mb_info: u64,
    pub cmdline: u64,
    pub cmdsize: u64,
    /// The CPU frequency in MHz; the field is wider than the values it holds.
    pub cpu_freq: u32,
    /// CPU ID of the boot processor (legacy)
    pub boot_processor: u32,
    pub possible_cpus: u32,
    /// CPU ID of the currently booting processor (legacy)
    ///
    /// Kernels now deduce this from the number of cores that are online.
    pub current_boot_id: u32,
    /// The serial port: an I/O port of 16 bits on x86-64, an address of 32
    /// bits on AArch64.
    pub uartport: u32,
    /// Single Kernel (legacy)
    ///
    /// Told whether the kernel is the only one on the machine.
    pub single_kernel: u8,
    pub uhyve: u8,
    /// Uhyve IP Address (legacy)
    pub hcip: [u8; 4],
    /// Uhyve Gateway Address (legacy)
    pub hcgateway: [u8; 4],
    /// Uhyve Network Mask (legacy)
    pub hcmask: [u8; 4],
}

impl RawFields {
    /// The values fit the fields that the architecture's layout has for
    /// them, and a field that the layout lacks is zero.
    pub open spec fn well_formed(self) -> bool {
        &&& self.cpu_freq <= 0xffff
        &&& self.uartport <= self.arch.uartport_max()
        &&& !self.arch.has_ram_start() ==> self.ram_start == 0
        &&& !self.arch.has_mb_info() ==> self.mb_info == 0
    }

    /// Tells whether the values fit the fields that the architecture's
    /// layout has for them, and the fields that the layout lacks are zero.
    pub fn is_well_formed(&self) -> (b: bool)
        ensures
            b == self.well_formed(),
    {
        self.cpu_freq <= 0xffff && match self.arch {
            Arch::X86_64 => self.uartport <= 0xffff && self.ram_start == 0,
            Arch::Aarch64 => self.mb_info == 0,
        }
    }

    /// The values that depend on the architecture, in typed form.
    pub open spec fn platform(self) -> Platform {
        match self.arch {
            Arch::X86_64 => Platform::X86_64 {
                uartport: self.uartport as u16,
                mb_info: if self.uhyve != 0 {
                    0
                } else {
                    self.mb_info
                },
            },
            Arch::Aarch64 => Platform::Aarch64 {
                uartport: self.uartport,
                ram_start: self.ram_start,
            },
        }
    }

    /// The typed boot information that a kernel reads out of these fields.
    /// Under uhyve the boot time, the CPU frequency and the number of CPUs
    /// are taken over and what multiboot would give is zero; otherwise the
    /// command line and the multiboot information are taken over and what
    /// uhyve would give is zero.
    pub open spec fn boot_info(self) -> BootInfo {
        let uhyve = self.uhyve != 0;
        BootInfo {
            limit: self.limit,
            base: self.base,
            image_size: self.image_size,
            tls_info: TlsInfo {
                start: self.tls_start,
                filesz: self.tls_filesz,
                memsz: self.tls_memsz,
                align: self.tls_align,
            },
            platform: self.platform(),
            uhyve: self.uhyve,
            boot_gtod: if uhyve {
                self.boot_gtod
            } else {
                0
            },
            cpu_freq: if uhyve {
                self.cpu_freq as u16
            } else {
                0
            },
            possible_cpus: if uhyve {
                self.possible_cpus
            } else {
                0
            },
            cmdline: if uhyve {
                0
            } else {
                self.cmdline
            },
            cmdsize: if uhyve {
                0
            } else {
                self.cmdsize
            },
        }
    }
}

impl RawFields {
    /// The fields of the record that a loader builds for `info`.
    pub fn from_boot_info(info: &BootInfo) -> (fields: RawFields)
        ensures
            fields == raw_fields(*info),
            fields.well_formed(),
    {
        let (arch, uartport, ram_start, mb_info) = platform_fields(info.platform);
        RawFields {
            arch,
            magic_number: RAW_MAGIC_NUMBER,
            version: RAW_VERSION,
            base: info.base,
            ram_start,
            limit: info.limit,
            image_size: info.image_size,
            tls_start: info.tls_info.start,
            tls_filesz: info.tls_info.filesz,
            tls_memsz: info.tls_info.memsz,
            tls_align: info.tls_info.align,
            current_percore_address: 0,
            host_logical_addr: 0,
            boot_gtod: info.boot_gtod,
            mb_info,
            cmdline: info.cmdline,
            cmdsize: info.cmdsize,
            cpu_freq: info.cpu_freq as u32,
            boot_processor: 0,
            possible_cpus: info.possible_cpus,
            current_boot_id: 0,
            uartport,
            single_kernel: 1,
            uhyve: info.uhyve,
            hcip: [0u8, 0u8, 0u8, 0u8],
            hcgateway: [0u8, 0u8, 0u8, 0u8],
            hcmask: [0u8, 0u8, 0u8, 0u8],
        }
    }

    /// The typed boot information that a kernel reads out of these fields.
    /// What they hold for the way of booting that was not taken comes out as
    /// zero.
    pub fn to_boot_info(&self) -> (info: BootInfo)
        requires
            self.well_formed(),
        ensures
            info == self.boot_info(),
    {
        let uhyve: bool = self.uhyve != 0;
        let platform = match self.arch {
            Arch::X86_64 => Platform::X86_64 {
                uartport: self.uartport as u16,
                mb_info: if uhyve {
                    0
                } else {
                    self.mb_info
                },
            },
            Arch::Aarch64 => Platform::Aarch64 {
                uartport: self.uartport,
                ram_start: self.ram_start,
            },
        };
        BootInfo {
            limit: self.limit,
            base: self.base,
            image_size: self.image_size,
            tls_info: TlsInfo {
                start: self.tls_start,
                filesz: self.tls_filesz,
                memsz: self.tls_memsz,
                align: self.tls_align,
            },
            platform,
            uhyve: self.uhyve,
            boot_gtod: if uhyve {
                self.boot_gtod
            } else {
                0
            },
            cpu_freq: if uhyve {
                self.cpu_freq as u16
            } else {
                0
            },
            possible_cpus: if uhyve {
                self.possible_cpus
            } else {
                0
            },
            cmdline: if uhyve {
                0
            } else {
                self.cmdline
            },
            cmdsize: if uhyve {
                0
            } else {
                self.cmdsize
            },
        }
    }
}

/// The fields of the record that a loader builds for `info`: the values of
/// `info` as they stand, the identification that older consumers look for,
/// and the fields that nobody reads any more at rest.
pub open spec fn raw_fields(info: BootInfo) -> RawFields {
    RawFields {
        arch: info.platform.spec_arch(),
        magic_number: RAW_MAGIC_NUMBER,
        version: RAW_VERSION,
        base: info.base,
        ram_start: match info.platform {
            Platform::X86_64 { .. } => 0,
            Platform::Aarch64 { ram_start, .. } => ram_start,
        },
        limit: info.limit,
        image_size: info.image_size,
        tls_start: info.tls_info.start,
        tls_filesz: info.tls_info.filesz,
        tls_memsz: info.tls_info.memsz,
        tls_align: info.tls_info.align,
        current_percore_address: 0,
        host_logical_addr: 0,
        boot_gtod: info.boot_gtod,
        mb_info: match info.platform {
            Platform::X86_64 { mb_info, .. } => mb_info,
            Platform::Aarch64 { .. } => 0,
        },
        cmdline: info.cmdline,
        cmdsize: info.cmdsize,
        cpu_freq: info.cpu_freq as u32,
        boot_processor: 0,
        possible_cpus: info.possible_cpus,
        current_boot_id: 0,
        uartport: match info.platform {
            Platform::X86_64 { uartport, .. } => uartport as u32,
            Platform::Aarch64 { uartport, .. } => uartport,
        },
        single_kernel: 1,
        uhyve: info.uhyve,
        hcip: [0u8, 0u8, 0u8, 0u8],
        hcgateway: [0u8, 0u8, 0u8, 0u8],
        hcmask: [0u8, 0u8, 0u8, 0u8],
    }
}

/// Splits the values that depend on the architecture into the raw fields
/// that hold them: the architecture, the serial port, the start of memory
/// and the multiboot information.
fn platform_fields(platform: Platform) -> (fields: (Arch, u32, u64, u64))
    ensures
        fields.0 == platform.spec_arch(),
        fields.1 == match platform {
            Platform::X86_64 { uartport, .. } => uartport as u32,
            Platform::Aarch64 { uartport, .. } => uartport,
        },
        fields.2 == match platform {
            Platform::X86_64 { .. } => 0,
            Platform::Aarch64 { ram_start, .. } => ram_start,
        },
        fields.3 == match platform {
            Platform::X86_64 { mb_info, .. } => mb_info,
            Platform::Aarch64 { .. } => 0,
        },
{
    match platform {
        Platform::X86_64 { uartport, mb_info } => (Arch::X86_64, uartport as u32, 0, mb_info),
        Platform::Aarch64 { uartport, ram_start } => (Arch::Aarch64, uartport, ram_start, 0),
    }
}

/// `info` with what belongs to the way of booting that was not taken set to
/// zero.
pub open spec fn settled(info: BootInfo) -> BootInfo {
    let uhyve = info.uhyve != 0;
    BootInfo {
        platform: match info.platform {
            Platform::X86_64 { uartport, mb_info } => Platform::X86_64 {
                uartport,
                mb_info: if uhyve {
                    0
                } else {
                    mb_info
                },
            },
            Platform::Aarch64 { uartport, ram_start } => Platform::Aarch64 { uartport, ram_start },
        },
        boot_gtod: if uhyve {
            info.boot_gtod
        } else {
            0
        },
        cpu_freq: if uhyve {
            info.cpu_freq
        } else {
            0
        },
        possible_cpus: if uhyve {
            info.possible_cpus
        } else {
            0
        },
        cmdline: if uhyve {
            0
        } else {
            info.cmdline
        },
        cmdsize: if uhyve {
            0
        } else {
            info.cmdsize
        },
        ..info
    }
}

/// Under uhyve a kernel reads the boot time, the CPU frequency and the number
/// of CPUs as the record holds them, and zero for the command line and the
/// multiboot information.
pub proof fn lemma_uhyve_fields(fields: RawFields)
    requires
        fields.well_formed(),
        fields.uhyve != 0,
    ensures
        fields.boot_info().boot_gtod == fields.boot_gtod,
        fields.boot_info().cpu_freq == fields.cpu_freq,
        fields.boot_info().possible_cpus == fields.possible_cpus,
        fields.boot_info().cmdline == 0,
        fields.boot_info().cmdsize == 0,
        fields.boot_info().platform matches Platform::X86_64 { mb_info, .. } ==> mb_info == 0,
{
}

/// Without uhyve a kernel reads the command line and the multiboot
/// information as the record holds them, and zero for the boot time, the CPU
/// frequency and the number of CPUs.
pub proof fn lemma_multiboot_fields(fields: RawFields)
    requires
        fields.well_formed(),
        fields.uhyve == 0,
    ensures
        fields.boot_info().cmdline == fields.cmdline,
        fields.boot_info().cmdsize == fields.cmdsize,
        fields.boot_info().platform matches Platform::X86_64 { mb_info, .. } ==> mb_info
            == fields.mb_info,
        fields.boot_info().boot_gtod == 0,
        fields.boot_info().cpu_freq == 0,
        fields.boot_info().possible_cpus == 0,
{
}

/// What a kernel reads depends on the record's architecture only in the
/// values that the architecture has for itself; everything else is read the
/// same on both.
pub proof fn lemma_common_fields(fields: RawFields)
    requires
        fields.well_formed(),
    ensures
        fields.boot_info().platform.spec_arch() == fields.arch,
        fields.boot_info().base == fields.base,
        fields.boot_info().limit == fields.limit,
        fields.boot_info().image_size == fields.image_size,
        fields.boot_info().tls_info == (TlsInfo {
            start: fields.tls_start,
            filesz: fields.tls_filesz,
            memsz: fields.tls_memsz,
            align: fields.tls_align,
        }),
        fields.boot_info().uhyve == fields.uhyve,
        fields.boot_info().platform matches Platform::X86_64 { uartport, .. } ==> uartport
            == fields.uartport,
        fields.boot_info().platform matches Platform::Aarch64 { uartport, ram_start }
            ==> uartport == fields.uartport && ram_start == fields.ram_start,
{
}

/// The record that a loader builds for `info` is well formed, and a kernel
/// reads `info` back from it, but for what belongs to the way of booting that
/// was not taken, which it reads as zero.
pub proof fn lemma_record_round_trip(info: BootInfo)
    ensures
        raw_fields(info).well_formed(),
        raw_fields(info).boot_info() == settled(info),
        settled(settled(info)) == settled(info),
{
}

} // verus!
