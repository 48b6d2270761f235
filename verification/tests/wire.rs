use hermit_entry::arch::Arch;
use hermit_entry::boot_info::BootInfo;
use hermit_entry::boot_info::Platform;
use hermit_entry::boot_info::TlsInfo;
use hermit_entry::bringup::SharedFields;
use hermit_entry::layout::offset_of;
use hermit_entry::layout::Field;
use hermit_entry::raw::RawBootInfo;
use hermit_entry::fields::RawFields;
use hermit_entry::fields::RAW_MAGIC_NUMBER;
use hermit_entry::fields::RAW_VERSION;
use hermit_entry::wire::from_bytes;
use hermit_entry::wire::to_bytes;

fn fields(arch: Arch) -> RawFields {
    RawFields {
        arch,
        magic_number: 0xc0de_cafe,
        version: 1,
        base: 0x0102_0304_0506_0708,
        ram_start: match arch {
            Arch::X86_64 => 0,
            Arch::Aarch64 => 0x4000_0000,
        },
        limit: 0x1112_1314_1516_1718,
        image_size: 0x2122_2324_2526_2728,
        tls_start: 0x3132_3334_3536_3738,
        tls_filesz: 0x4142_4344_4546_4748,
        tls_memsz: 0x5152_5354_5556_5758,
        tls_align: 0x6162_6364_6566_6768,
        current_percore_address: 0x7172_7374_7576_7778,
        host_logical_addr: 0x8182_8384_8586_8788,
        boot_gtod: 0x9192_9394_9596_9798,
        mb_info: match arch {
            Arch::X86_64 => 0xa1a2_a3a4_a5a6_a7a8,
            Arch::Aarch64 => 0,
        },
        cmdline: 0xb1b2_b3b4_b5b6_b7b8,
        cmdsize: 0xc1c2_c3c4_c5c6_c7c8,
        cpu_freq: 0xd1d2,
        boot_processor: 0xe1e2_e3e4,
        possible_cpus: 0xf1f2_f3f4,
        current_boot_id: 0x0a0b_0c0d,
        uartport: match arch {
            Arch::X86_64 => 0x03f8,
            Arch::Aarch64 => 0x0900_1000,
        },
        single_kernel: 0x5a,
        uhyve: 0xa5,
        hcip: [10, 0, 5, 2],
        hcgateway: [10, 0, 5, 1],
        hcmask: [255, 255, 255, 0],
    }
}

fn shared() -> SharedFields {
    SharedFields { current_stack_address: 0xfedc_ba98_7654_3210, cpu_online: 0x0403_0201 }
}

#[test]
fn bytes_on_x86_64() {
    let bytes = to_bytes(&fields(Arch::X86_64), shared());
    assert_eq!(bytes.len(), 160);
    assert_eq!(bytes[0..4], [0xfe, 0xca, 0xde, 0xc0]);
    assert_eq!(bytes[4..8], [1, 0, 0, 0]);
    assert_eq!(bytes[8..16], [8, 7, 6, 5, 4, 3, 2, 1]);
    assert_eq!(bytes[16..24], 0x1112_1314_1516_1718u64.to_le_bytes());
    assert_eq!(bytes[24..32], 0x2122_2324_2526_2728u64.to_le_bytes());
    assert_eq!(bytes[32..40], 0x3132_3334_3536_3738u64.to_le_bytes());
    assert_eq!(bytes[40..48], 0x4142_4344_4546_4748u64.to_le_bytes());
    assert_eq!(bytes[48..56], 0x5152_5354_5556_5758u64.to_le_bytes());
    assert_eq!(bytes[56..64], 0xfedc_ba98_7654_3210u64.to_le_bytes());
    assert_eq!(bytes[64..72], 0x7172_7374_7576_7778u64.to_le_bytes());
    assert_eq!(bytes[72..80], 0x8182_8384_8586_8788u64.to_le_bytes());
    assert_eq!(bytes[80..88], 0x9192_9394_9596_9798u64.to_le_bytes());
    assert_eq!(bytes[88..96], 0xa1a2_a3a4_a5a6_a7a8u64.to_le_bytes());
    assert_eq!(bytes[96..104], 0xb1b2_b3b4_b5b6_b7b8u64.to_le_bytes());
    assert_eq!(bytes[104..112], 0xc1c2_c3c4_c5c6_c7c8u64.to_le_bytes());
    assert_eq!(bytes[112..116], [0xd2, 0xd1, 0, 0]);
    assert_eq!(bytes[116..120], 0xe1e2_e3e4u32.to_le_bytes());
    assert_eq!(bytes[120..124], [1, 2, 3, 4]);
    assert_eq!(bytes[124..128], 0xf1f2_f3f4u32.to_le_bytes());
    assert_eq!(bytes[128..132], 0x0a0b_0c0du32.to_le_bytes());
    assert_eq!(bytes[132..134], [0xf8, 0x03]);
    assert_eq!(bytes[134], 0x5a);
    assert_eq!(bytes[135], 0xa5);
    assert_eq!(bytes[136..140], [10, 0, 5, 2]);
    assert_eq!(bytes[140..144], [10, 0, 5, 1]);
    assert_eq!(bytes[144..148], [255, 255, 255, 0]);
    assert_eq!(bytes[148..152], [0, 0, 0, 0]);
    assert_eq!(bytes[152..160], 0x6162_6364_6566_6768u64.to_le_bytes());
}

#[test]
fn bytes_on_aarch64() {
    let bytes = to_bytes(&fields(Arch::Aarch64), shared());
    assert_eq!(bytes.len(), 160);
    assert_eq!(bytes[0..4], [0xfe, 0xca, 0xde, 0xc0]);
    assert_eq!(bytes[8..16], 0x0102_0304_0506_0708u64.to_le_bytes());
    assert_eq!(bytes[16..24], 0x4000_0000u64.to_le_bytes());
    assert_eq!(bytes[24..32], 0x1112_1314_1516_1718u64.to_le_bytes());
    assert_eq!(bytes[64..72], 0x6162_6364_6566_6768u64.to_le_bytes());
    assert_eq!(bytes[72..80], 0xfedc_ba98_7654_3210u64.to_le_bytes());
    assert_eq!(bytes[96..104], 0x9192_9394_9596_9798u64.to_le_bytes());
    assert_eq!(bytes[104..112], 0xb1b2_b3b4_b5b6_b7b8u64.to_le_bytes());
    assert_eq!(bytes[128..132], [1, 2, 3, 4]);
    assert_eq!(bytes[140..144], 0x0900_1000u32.to_le_bytes());
    assert_eq!(bytes[144], 0x5a);
    assert_eq!(bytes[145], 0xa5);
    assert_eq!(bytes[146..150], [10, 0, 5, 2]);
    assert_eq!(bytes[150..154], [10, 0, 5, 1]);
    assert_eq!(bytes[154..158], [255, 255, 255, 0]);
    assert_eq!(bytes[158..160], [0, 0]);
}

#[test]
fn bytes_round_trip() {
    for arch in [Arch::X86_64, Arch::Aarch64] {
        let written = fields(arch);
        let bytes = to_bytes(&written, shared());
        assert_eq!(from_bytes(arch, &bytes), Some((written, shared())));
    }
}

#[test]
fn bytes_behind_the_record_are_passed_over() {
    let written = fields(Arch::X86_64);
    let mut bytes = to_bytes(&written, shared());
    bytes.extend_from_slice(&[0xff; 7]);
    assert_eq!(from_bytes(Arch::X86_64, &bytes), Some((written, shared())));
}

#[test]
fn too_few_bytes_hold_no_record() {
    let bytes = to_bytes(&fields(Arch::X86_64), shared());
    assert_eq!(from_bytes(Arch::X86_64, &bytes[..159]), None);
    assert_eq!(from_bytes(Arch::Aarch64, &[]), None);
}

#[test]
fn cpu_frequency_beyond_16_bits_is_refused() {
    for arch in [Arch::X86_64, Arch::Aarch64] {
        let mut bytes = to_bytes(&fields(arch), shared());
        let at = offset_of(arch, Field::CpuFreq).unwrap();
        bytes[at + 2] = 1;
        assert_eq!(from_bytes(arch, &bytes), None);
    }
}

#[test]
fn bytes_of_one_architecture_read_otherwise_on_the_other() {
    let now = SharedFields { current_stack_address: 0x8000, cpu_online: 2 };
    let bytes = to_bytes(&fields(Arch::X86_64), now);
    let (read, then) = from_bytes(Arch::Aarch64, &bytes).unwrap();
    assert_eq!(read.ram_start, 0x1112_1314_1516_1718);
    assert_eq!(read.mb_info, 0);
    assert_eq!(read.cpu_freq, 2);
    assert_eq!(read.uartport, u32::from_le_bytes([10, 0, 5, 1]));
    assert_eq!(then.current_stack_address, 0x8182_8384_8586_8788);
    assert_eq!(then.cpu_online, 0x0a0b_0c0d);
}

#[test]
fn fields_that_do_not_fit_are_cut_to_their_size() {
    let mut written = fields(Arch::X86_64);
    written.uartport = 0x0001_03f8;
    assert!(!written.is_well_formed());
    let bytes = to_bytes(&written, shared());
    assert_eq!(bytes[132..134], [0xf8, 0x03]);
    assert_eq!(bytes[134], 0x5a);
}

#[test]
fn record_of_a_loader_as_bytes() {
    let info = BootInfo {
        limit: 0x1000_0000,
        base: 0x10_0000,
        image_size: 0x4000,
        tls_info: TlsInfo { start: 0x10_2000, filesz: 0x20, memsz: 0x40, align: 8 },
        platform: Platform::X86_64 { uartport: 0x3f8, mb_info: 0 },
        uhyve: 1,
        boot_gtod: 1_600_000_000_000_000,
        cpu_freq: 2400,
        possible_cpus: 4,
        cmdline: 0,
        cmdsize: 0,
    };
    let mut record = RawBootInfo::new(&info);
    record.store_current_stack_address(0x8000_0000);
    record.increment_cpu_online();
    let written = record.fields();
    assert_eq!(written.magic_number, RAW_MAGIC_NUMBER);
    assert_eq!(written.version, RAW_VERSION);
    assert_eq!(written.single_kernel, 1);
    assert!(written.is_well_formed());
    let now = record.shared();
    assert_eq!(now, SharedFields { current_stack_address: 0x8000_0000, cpu_online: 1 });
    let bytes = to_bytes(&written, now);
    assert_eq!(bytes[56..64], 0x8000_0000u64.to_le_bytes());
    assert_eq!(bytes[120..124], [1, 0, 0, 0]);
    assert_eq!(bytes[124..128], [4, 0, 0, 0]);
    let (read, then) = from_bytes(Arch::X86_64, &bytes).unwrap();
    let copy = RawBootInfo::from_fields(read, then.current_stack_address, then.cpu_online).unwrap();
    assert_eq!(BootInfo::from_raw(&copy), info);
    assert_eq!(copy.load_cpu_online(), 1);
    assert_eq!(copy.load_current_stack_address(), 0x8000_0000);
}

#[test]
fn fields_that_do_not_fit_make_no_record() {
    let mut given = fields(Arch::X86_64);
    given.cpu_freq = 0x1_0000;
    assert!(RawBootInfo::from_fields(given, 0, 0).is_none());
    let mut given = fields(Arch::X86_64);
    given.uartport = 0x1_0000;
    assert!(RawBootInfo::from_fields(given, 0, 0).is_none());
    let mut given = fields(Arch::X86_64);
    given.ram_start = 1;
    assert!(RawBootInfo::from_fields(given, 0, 0).is_none());
    let mut given = fields(Arch::Aarch64);
    given.mb_info = 1;
    assert!(RawBootInfo::from_fields(given, 0, 0).is_none());
    let mut given = fields(Arch::Aarch64);
    given.uartport = u32::MAX;
    assert!(RawBootInfo::from_fields(given, 0, 0).is_some());
}
