use hermit_entry::arch::Arch;
use hermit_entry::boot_info::Platform;
use hermit_entry::bringup::Event;
use hermit_entry::bringup::SharedFields;
use hermit_entry::fields::RawFields;
use hermit_entry::note::decode;
use hermit_entry::note::encode;
use hermit_entry::raw::BootInfoView;
use hermit_entry::BootInfo;
use hermit_entry::RawBootInfo;
use hermit_entry::TlsInfo;

fn uhyve_info() -> BootInfo {
    BootInfo {
        limit: 0x1000_0000,
        base: 0x10_0000,
        image_size: 0x4000,
        tls_info: TlsInfo { start: 0x10_2000, filesz: 0x20, memsz: 0x40, align: 8 },
        platform: Platform::X86_64 { uartport: 0x3f8, mb_info: 0 },
        uhyve: 1,
        boot_gtod: 1_600_000_000_000_000,
        cpu_freq: 2400,
        possible_cpus: 4,
        cmdline: 0,
        cmdsize: 0,
    }
}

fn multiboot_info() -> BootInfo {
    BootInfo {
        limit: 0x800_0000,
        base: 0x20_0000,
        image_size: 0x8000,
        tls_info: TlsInfo { start: 0, filesz: 0, memsz: 0, align: 0 },
        platform: Platform::X86_64 { uartport: 0x3f8, mb_info: 0x9500 },
        uhyve: 0,
        boot_gtod: 0,
        cpu_freq: 0,
        possible_cpus: 0,
        cmdline: 0x9000,
        cmdsize: 17,
    }
}

#[test]
fn four_cores_come_online() {
    let mut record = RawBootInfo::new(&uhyve_info());
    let info = BootInfo::from_raw(&record);
    assert_eq!(info.base, 0x10_0000);
    assert_eq!(info.limit, 0x1000_0000);
    assert_eq!(info.image_size, 0x4000);
    assert_eq!(info.possible_cpus, 4);
    assert!(info.has_valid_geometry());
    assert_eq!(record.load_cpu_online(), 0);
    for core in 0..4u32 {
        let marker = 0x8000_0000 + 0x1_0000 * core as u64;
        record.store_current_stack_address(marker);
        record.increment_cpu_online();
        assert_eq!(record.load_cpu_online(), core + 1);
        assert_eq!(record.load_current_stack_address(), marker);
        assert!(record.load_cpu_online() <= info.possible_cpus);
    }
    assert_eq!(record.load_cpu_online(), 4);
}

#[test]
fn new_record_is_at_rest() {
    let record = RawBootInfo::new(&uhyve_info());
    assert_eq!(record.load_cpu_online(), 0);
    assert_eq!(record.load_current_stack_address(), 0);
}

#[test]
fn stack_address_round_trips() {
    let mut record = RawBootInfo::new(&uhyve_info());
    for address in [0u64, 1, 0x1234_5678_9abc_def0, 0x8000_0000_0000_0000, u64::MAX] {
        record.store_current_stack_address(address);
        record.increment_cpu_online();
        let _ = record.load_cpu_online();
        assert_eq!(record.load_current_stack_address(), address);
    }
}

#[test]
fn record_follows_the_description_of_its_shared_fields() {
    let mut record = RawBootInfo::new(&uhyve_info());
    let events = [
        Event::StoreStack { address: 0x9000 },
        Event::CoreOnline { core: 0 },
        Event::StoreStack { address: 0xa000 },
        Event::CoreOnline { core: 2 },
        Event::CoreOnline { core: 1 },
        Event::StoreStack { address: 0xb000 },
        Event::CoreOnline { core: 3 },
    ];
    let mut fields = SharedFields::initial();
    for event in events.iter() {
        match *event {
            Event::StoreStack { address } => record.store_current_stack_address(address),
            Event::CoreOnline { .. } => record.increment_cpu_online(),
        }
        fields = fields.step(*event);
        assert_eq!(record.load_cpu_online(), fields.cpu_online);
        assert_eq!(record.load_current_stack_address(), fields.current_stack_address);
    }
    assert_eq!(fields, SharedFields::initial().run(&events));
}

#[test]
fn view_under_uhyve() {
    let mut given = uhyve_info();
    given.cmdline = 0x9000;
    given.cmdsize = 17;
    given.platform = Platform::X86_64 { uartport: 0x3f8, mb_info: 0x9500 };
    let info = BootInfo::from_raw(&RawBootInfo::new(&given));
    assert!(info.is_uhyve());
    assert_eq!(info.uhyve, 1);
    assert_eq!(info.boot_gtod, 1_600_000_000_000_000);
    assert_eq!(info.cpu_freq, 2400);
    assert_eq!(info.possible_cpus, 4);
    assert_eq!(info.cmdline, 0);
    assert_eq!(info.cmdsize, 0);
    assert_eq!(info.platform, Platform::X86_64 { uartport: 0x3f8, mb_info: 0 });
}

#[test]
fn view_without_uhyve() {
    let mut given = multiboot_info();
    given.boot_gtod = 99;
    given.cpu_freq = 1000;
    given.possible_cpus = 8;
    let info = BootInfo::from_raw(&RawBootInfo::new(&given));
    assert!(!info.is_uhyve());
    assert_eq!(info.cmdline, 0x9000);
    assert_eq!(info.cmdsize, 17);
    assert_eq!(info.platform, Platform::X86_64 { uartport: 0x3f8, mb_info: 0x9500 });
    assert_eq!(info.boot_gtod, 0);
    assert_eq!(info.cpu_freq, 0);
    assert_eq!(info.possible_cpus, 0);
}

#[test]
fn settled_info_round_trips() {
    for info in [uhyve_info(), multiboot_info()] {
        assert_eq!(BootInfo::from_raw(&RawBootInfo::new(&info)), info);
    }
}

#[test]
fn aarch64_info_round_trips() {
    let mut info = uhyve_info();
    info.platform = Platform::Aarch64 { uartport: 0x0900_0000, ram_start: 0x4000_0000 };
    info.cpu_freq = u16::MAX;
    info.tls_info = TlsInfo { start: 0x4010_0000, filesz: 1, memsz: 2, align: 64 };
    let read = BootInfo::from_raw(&RawBootInfo::new(&info));
    assert_eq!(read, info);
    assert_eq!(read.platform.arch(), Arch::Aarch64);
    assert_eq!(read.tls_info.align, 64);
}

#[test]
fn widest_values_round_trip() {
    let info = BootInfo {
        limit: u64::MAX,
        base: u64::MAX - 1,
        image_size: 1,
        tls_info: TlsInfo { start: u64::MAX, filesz: u64::MAX, memsz: u64::MAX, align: u64::MAX },
        platform: Platform::X86_64 { uartport: u16::MAX, mb_info: 0 },
        uhyve: 255,
        boot_gtod: u64::MAX,
        cpu_freq: u16::MAX,
        possible_cpus: u32::MAX,
        cmdline: 0,
        cmdsize: 0,
    };
    assert_eq!(BootInfo::from_raw(&RawBootInfo::new(&info)), info);
    assert_eq!(info.platform.arch(), Arch::X86_64);
}

#[test]
fn geometry() {
    let mut info = uhyve_info();
    assert!(info.has_valid_geometry());
    info.image_size = info.limit - info.base;
    assert!(info.has_valid_geometry());
    info.image_size += 1;
    assert!(!info.has_valid_geometry());
    info.image_size = 0;
    info.limit = info.base;
    assert!(!info.has_valid_geometry());
    info.limit = 0;
    assert!(!info.has_valid_geometry());
}

#[test]
fn ranges() {
    let info = uhyve_info();
    assert_eq!(info.memory_range(), 0x10_0000..0x1000_0000);
    assert!(info.has_valid_geometry());
    assert_eq!(info.image_range(), 0x10_0000..0x10_4000);
    let mut full = uhyve_info();
    full.image_size = full.limit - full.base;
    assert!(full.has_valid_geometry());
    assert_eq!(full.image_range(), 0x10_0000..0x1000_0000);
}

#[test]
fn fields_of_a_new_record() {
    let info = uhyve_info();
    let fields = RawFields::from_boot_info(&info);
    assert_eq!(fields, RawBootInfo::new(&info).fields());
    assert_eq!(fields.arch, Arch::X86_64);
    assert_eq!(fields.magic_number, 0xc0de_cafe);
    assert_eq!(fields.version, 1);
    assert_eq!(fields.base, 0x10_0000);
    assert_eq!(fields.ram_start, 0);
    assert_eq!(fields.limit, 0x1000_0000);
    assert_eq!(fields.image_size, 0x4000);
    assert_eq!(fields.tls_start, 0x10_2000);
    assert_eq!(fields.tls_filesz, 0x20);
    assert_eq!(fields.tls_memsz, 0x40);
    assert_eq!(fields.tls_align, 8);
    assert_eq!(fields.current_percore_address, 0);
    assert_eq!(fields.host_logical_addr, 0);
    assert_eq!(fields.boot_gtod, 1_600_000_000_000_000);
    assert_eq!(fields.mb_info, 0);
    assert_eq!(fields.cmdline, 0);
    assert_eq!(fields.cmdsize, 0);
    assert_eq!(fields.cpu_freq, 2400);
    assert_eq!(fields.boot_processor, 0);
    assert_eq!(fields.possible_cpus, 4);
    assert_eq!(fields.current_boot_id, 0);
    assert_eq!(fields.uartport, 0x3f8);
    assert_eq!(fields.single_kernel, 1);
    assert_eq!(fields.uhyve, 1);
    assert_eq!(fields.hcip, [0, 0, 0, 0]);
    assert_eq!(fields.hcgateway, [0, 0, 0, 0]);
    assert_eq!(fields.hcmask, [0, 0, 0, 0]);
    assert!(fields.is_well_formed());
    assert_eq!(fields.to_boot_info(), info);
}

#[test]
fn new_record_keeps_what_the_other_way_of_booting_would_give() {
    let mut given = multiboot_info();
    given.possible_cpus = 8;
    given.boot_gtod = 99;
    let fields = RawBootInfo::new(&given).fields();
    assert_eq!(fields.possible_cpus, 8);
    assert_eq!(fields.boot_gtod, 99);
    assert_eq!(fields.cmdline, 0x9000);
    assert_eq!(fields.mb_info, 0x9500);
}

#[test]
fn constants_at_the_root() {
    assert_eq!(hermit_entry::NT_HERMIT_ENTRY_VERSION, 0x5a00);
    assert_eq!(hermit_entry::HERMIT_ENTRY_VERSION, 1);
}

#[test]
fn view_reads_the_changing_fields_from_the_record() {
    let mut record = RawBootInfo::new(&uhyve_info());
    {
        let view = BootInfoView::from_raw(&record);
        assert_eq!(view.info, uhyve_info());
        assert_eq!(view.record.load_cpu_online(), 0);
        assert_eq!(view.record.load_current_stack_address(), 0);
    }
    record.store_current_stack_address(0x7000);
    record.increment_cpu_online();
    let view = BootInfoView::from_raw(&record);
    assert_eq!(view.record.load_cpu_online(), 1);
    assert_eq!(view.record.load_current_stack_address(), 0x7000);
    assert_eq!(view.info.possible_cpus, 4);
}

#[test]
fn store_leaves_everything_else_alone() {
    let mut fields = RawFields::from_boot_info(&uhyve_info());
    fields.current_percore_address = 0x7;
    let mut record = RawBootInfo::from_fields(fields, 0x1000, 3).unwrap();
    assert_eq!(record.load_current_stack_address(), 0x1000);
    assert_eq!(record.load_cpu_online(), 3);
    record.store_current_stack_address(0xdead_beef_0000_2000);
    assert_eq!(record.load_current_stack_address(), 0xdead_beef_0000_2000);
    assert_eq!(record.load_cpu_online(), 3);
    assert_eq!(record.fields(), fields);
    assert_eq!(record.fields().current_percore_address, 0x7);
}

#[test]
fn stored_zero_replaces_an_address() {
    let mut record = RawBootInfo::new(&multiboot_info());
    record.store_current_stack_address(0x7fff_f000);
    record.store_current_stack_address(0);
    assert_eq!(record.load_current_stack_address(), 0);
}

#[test]
fn loads_change_nothing() {
    let mut record = RawBootInfo::from_fields(RawFields::from_boot_info(&uhyve_info()), 9, 2).unwrap();
    record.increment_cpu_online();
    let before = (record.fields(), record.shared());
    let _ = record.load_cpu_online();
    let _ = record.load_current_stack_address();
    assert_eq!((record.fields(), record.shared()), before);
    assert_eq!(record.shared(), SharedFields { current_stack_address: 9, cpu_online: 3 });
}

#[test]
fn report_leaves_the_stack_address_alone() {
    let mut record = RawBootInfo::from_fields(RawFields::from_boot_info(&uhyve_info()), 0x55, 0).unwrap();
    let fields = record.fields();
    record.increment_cpu_online();
    record.increment_cpu_online();
    assert_eq!(record.load_cpu_online(), 2);
    assert_eq!(record.load_current_stack_address(), 0x55);
    assert_eq!(record.fields(), fields);
}

#[test]
fn counter_of_the_record_wraps() {
    let mut record =
        RawBootInfo::from_fields(RawFields::from_boot_info(&uhyve_info()), 0, u32::MAX).unwrap();
    record.increment_cpu_online();
    assert_eq!(record.load_cpu_online(), 0);
}

#[test]
fn record_applies_events() {
    let mut record = RawBootInfo::new(&uhyve_info());
    record.apply(Event::StoreStack { address: 0x9000 });
    assert_eq!(record.shared(), SharedFields { current_stack_address: 0x9000, cpu_online: 0 });
    record.apply(Event::CoreOnline { core: 3 });
    assert_eq!(record.shared(), SharedFields { current_stack_address: 0x9000, cpu_online: 1 });
}

#[test]
fn record_replays_every_order_within_the_possible_cpus() {
    let orders: [[u32; 4]; 4] = [[0, 1, 2, 3], [3, 2, 1, 0], [1, 3, 0, 2], [2, 0, 3, 1]];
    for order in orders.iter() {
        let mut events = Vec::new();
        for core in order.iter() {
            events.push(Event::StoreStack { address: 0x1000 * (*core as u64 + 1) });
            events.push(Event::CoreOnline { core: *core });
        }
        for n in 0..=events.len() {
            let mut record = RawBootInfo::new(&uhyve_info());
            record.replay(&events[..n]);
            assert_eq!(record.shared(), SharedFields::initial().run(&events[..n]));
            assert!(record.load_cpu_online() <= record.fields().possible_cpus);
            assert_eq!(record.load_cpu_online() as usize, n / 2);
            assert_eq!(record.fields(), RawFields::from_boot_info(&uhyve_info()));
        }
        let mut record = RawBootInfo::new(&uhyve_info());
        record.replay(&events);
        assert_eq!(record.load_cpu_online(), 4);
        assert_eq!(record.load_current_stack_address(), 0x1000 * (order[3] as u64 + 1));
    }
}

#[test]
fn loader_reads_the_note_and_hands_the_record_over() {
    for version in [0u8, 1, 255] {
        let image = encode(version);
        assert_eq!(decode(&image), Some(version));
        let mut written = RawBootInfo::new(&uhyve_info());
        written.store_current_stack_address(0x8000);
        written.increment_cpu_online();
        written.increment_cpu_online();
        let read =
            RawBootInfo::from_fields(written.fields(), 0x8000, written.load_cpu_online()).unwrap();
        assert_eq!(read.load_cpu_online(), 2);
        assert_eq!(read.load_current_stack_address(), 0x8000);
    }
}

#[test]
fn legacy_kernel_gets_a_record_all_the_same() {
    assert_eq!(decode(&[]), None);
    let mut record = RawBootInfo::new(&multiboot_info());
    record.store_current_stack_address(0x8000);
    assert_eq!(record.load_current_stack_address(), 0x8000);
    let info = BootInfo::from_raw(&record);
    assert_eq!(info.cmdline, 0x9000);
    assert_eq!(info.cmdsize, 17);
    assert_eq!(info.boot_gtod, 0);
    assert_eq!(info.cpu_freq, 0);
    assert_eq!(info.possible_cpus, 0);
}
