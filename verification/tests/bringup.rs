use hermit_entry::bringup::Event;
use hermit_entry::bringup::SharedFields;

#[test]
fn fields_start_at_rest() {
    assert_eq!(SharedFields::initial(), SharedFields { current_stack_address: 0, cpu_online: 0 });
}

#[test]
fn store_replaces_the_stack_address_only() {
    let fields = SharedFields { current_stack_address: 1, cpu_online: 3 };
    assert_eq!(
        fields.step(Event::StoreStack { address: 0xdead_beef }),
        SharedFields { current_stack_address: 0xdead_beef, cpu_online: 3 }
    );
}

#[test]
fn report_adds_one_to_the_counter_only() {
    let fields = SharedFields { current_stack_address: 1, cpu_online: 3 };
    assert_eq!(
        fields.step(Event::CoreOnline { core: 2 }),
        SharedFields { current_stack_address: 1, cpu_online: 4 }
    );
}

#[test]
fn counter_wraps_as_the_atomic_does() {
    let fields = SharedFields { current_stack_address: 0, cpu_online: u32::MAX };
    assert_eq!(fields.step(Event::CoreOnline { core: 0 }).cpu_online, 0);
}

#[test]
fn run_of_no_events_changes_nothing() {
    let fields = SharedFields { current_stack_address: 7, cpu_online: 2 };
    assert_eq!(fields.run(&[]), fields);
}

#[test]
fn counter_stays_within_the_possible_cpus_in_every_order() {
    let possible_cpus: u32 = 4;
    let orders: [[u32; 4]; 6] =
        [[0, 1, 2, 3], [3, 2, 1, 0], [1, 0, 3, 2], [2, 3, 0, 1], [0, 2, 1, 3], [3, 0, 2, 1]];
    for order in orders.iter() {
        let mut events = Vec::new();
        for core in order.iter() {
            events.push(Event::StoreStack { address: 0x1000 * (*core as u64 + 1) });
            events.push(Event::CoreOnline { core: *core });
        }
        let mut seen: u32 = 0;
        for n in 0..=events.len() {
            let fields = SharedFields::initial().run(&events[..n]);
            assert!(fields.cpu_online <= possible_cpus);
            assert!(fields.cpu_online >= seen);
            seen = fields.cpu_online;
        }
        assert_eq!(SharedFields::initial().run(&events).cpu_online, possible_cpus);
    }
}

#[test]
fn stored_address_survives_the_reports_behind_it() {
    for address in [0u64, 1, 0x7fff_ffff_ffff_ffff, u64::MAX] {
        let events = [
            Event::CoreOnline { core: 0 },
            Event::StoreStack { address: 5 },
            Event::StoreStack { address },
            Event::CoreOnline { core: 1 },
            Event::CoreOnline { core: 2 },
        ];
        let fields = SharedFields::initial().run(&events);
        assert_eq!(fields.current_stack_address, address);
        assert_eq!(fields.cpu_online, 3);
    }
}

#[test]
fn store_before_a_report_is_seen_with_the_count() {
    let events = [
        Event::CoreOnline { core: 0 },
        Event::StoreStack { address: 0xbeef },
        Event::CoreOnline { core: 1 },
        Event::CoreOnline { core: 2 },
    ];
    let with_report: u32 = 2;
    for n in 0..=events.len() {
        let fields = SharedFields::initial().run(&events[..n]);
        if fields.cpu_online >= with_report {
            assert!(n > 2);
            assert_eq!(fields.current_stack_address, 0xbeef);
        }
    }
}

#[test]
fn stored_and_counted() {
    let fields = SharedFields { current_stack_address: 0x1000, cpu_online: 3 };
    assert_eq!(
        fields.stored(0xdead_beef_0000_2000),
        SharedFields { current_stack_address: 0xdead_beef_0000_2000, cpu_online: 3 }
    );
    assert_eq!(fields.counted(), SharedFields { current_stack_address: 0x1000, cpu_online: 4 });
    assert_eq!(fields.stored(9), fields.step(Event::StoreStack { address: 9 }));
    assert_eq!(fields.counted(), fields.step(Event::CoreOnline { core: 7 }));
}
