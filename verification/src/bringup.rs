//! What happens to the two shared fields of the record while cores come up.
//!
//! The loader publishes a stack address and starts a core; the core reports
//! itself online when its early boot is done. Loader and cores run side by
//! side, so the stores and increments reach the record in an order that
//! nobody fixes in advance. This module holds the record's two shared fields
//! as a value, each store and increment as an event, and one order of the
//! events as a sequence. The record's own functions are stated over these:
//! what holds of every sequence holds of the record however the cores
//! interleave, and a load sees the fields as some prefix left them.

use vstd::prelude::*;
use vstd::set_lib::lemma_int_range;
use vstd::set_lib::lemma_len_subset;
use vstd::set_lib::set_int_range;

verus! {

/// A store or an increment that reaches the record.
#[derive(Clone, Copy, Debug, PartialEq, Eq, Structural)]
pub enum Event {
    /// The loader publishes the address of a stack.
    StoreStack { address: u64 },
    /// The core with this number reports itself online.
    CoreOnline { core: u32 },
}

/// The two fields of the record that change after it was built.
#[derive(Clone, Copy, Debug, PartialEq, Eq, Structural)]
pub struct SharedFields {
    /// The stack address that was published last.
    pub current_stack_address: u64,
    /// The number of cores that have reported themselves online.
    pub cpu_online: u32,
}

impl SharedFields {
    /// The fields of a record that was just built.
    pub open spec fn spec_initial() -> SharedFields {
        SharedFields { current_stack_address: 0, cpu_online: 0 }
    }

    /// The fields of a record that was just built: no stack has been
    /// published and no core is online.
    #[verifier::when_used_as_spec(spec_initial)]
    pub fn initial() -> (fields: SharedFields)
        ensures
            fields == SharedFields::spec_initial(),
    {
        SharedFields { current_stack_address: 0, cpu_online: 0 }
    }

    /// The fields after a store of a stack address: the address is the one
    /// stored, the counter is as it was.
    pub open spec fn spec_stored(self, address: u64) -> SharedFields {
        SharedFields { current_stack_address: address, cpu_online: self.cpu_online }
    }

    /// The fields after a store of a stack address.
    #[verifier::when_used_as_spec(spec_stored)]
    pub fn stored(self, address: u64) -> (next: SharedFields)
        ensures
            next == self.spec_stored(address),
    {
        SharedFields { current_stack_address: address, cpu_online: self.cpu_online }
    }

    /// The fields after the report of a core: the counter is one more than it
    /// was, or zero where it was the largest number it can hold, and the
    /// stack address is as it was.
    pub open spec fn spec_counted(self) -> SharedFields {
        SharedFields {
            current_stack_address: self.current_stack_address,
            cpu_online: if self.cpu_online == u32::MAX {
                0
            } else {
                (self.cpu_online + 1) as u32
            },
        }
    }

    /// The fields after the report of a core.
    #[verifier::when_used_as_spec(spec_counted)]
    pub fn counted(self) -> (next: SharedFields)
        ensures
            next == self.spec_counted(),
    {
        SharedFields {
            current_stack_address: self.current_stack_address,
            cpu_online: self.cpu_online.wrapping_add(1),
        }
    }

    /// The fields after one event: after a store for `StoreStack`, after a
    /// report for `CoreOnline`, whichever core it is that reports.
    pub open spec fn spec_step(self, event: Event) -> SharedFields {
        match event {
            Event::StoreStack { address } => self.spec_stored(address),
            Event::CoreOnline { .. } => self.spec_counted(),
        }
    }

    /// The fields after one event.
    #[verifier::when_used_as_spec(spec_step)]
    pub fn step(self, event: Event) -> (next: SharedFields)
        ensures
            next == self.spec_step(event),
    {
        match event {
            Event::StoreStack { address } => self.stored(address),
            Event::CoreOnline { .. } => self.counted(),
        }
    }

    /// The fields after the events of a sequence, one after the other.
    pub open spec fn spec_run(self, events: Seq<Event>) -> SharedFields
        decreases events.len(),
    {
        if events.len() == 0 {
            self
        } else {
            self.spec_run(events.drop_last()).spec_step(events.last())
        }
    }

    /// The fields after the events of a sequence, one after the other.
    pub fn run(self, events: &[Event]) -> (last: SharedFields)
        ensures
            last == self.spec_run(events@),
    {
        let mut fields = self;
        let mut i: usize = 0;
        while i < events.len()
            invariant
                i <= events@.len(),
                fields == self.spec_run(events@.take(i as int)),
            decreases events@.len() - i,
        {
            assert(events@.take(i + 1).drop_last() =~= events@.take(i as int));
            fields = fields.step(events[i]);
            i = i + 1;
        }
        assert(events@.take(i as int) =~= events@);
        fields
    }
}

/// The fields after a sequence of events and one more event are the fields
/// after the sequence, one step on.
pub proof fn lemma_run_one_more(fields: SharedFields, events: Seq<Event>, event: Event)
    ensures
        fields.spec_run(events.push(event)) == fields.spec_run(events).spec_step(event),
{
    assert(events.push(event).drop_last() =~= events);
}

/// The number of increments among the events.
pub open spec fn increments(events: Seq<Event>) -> nat
    decreases events.len(),
{
    if events.len() == 0 {
        0
    } else if events.last() is CoreOnline {
        increments(events.drop_last()) + 1
    } else {
        increments(events.drop_last())
    }
}

/// The numbers of the cores that report themselves online in the events.
pub open spec fn cores(events: Seq<Event>) -> Set<int> {
    Set::new(|core: int| exists|i: int| 0 <= i < events.len() && reports(events[i], core))
}

/// The event is the report of the core with this number.
pub open spec fn reports(event: Event, core: int) -> bool {
    event is CoreOnline && event->core == core
}

/// What the boot protocol asks of the cores: only cores that the record
/// announces report themselves, and none does so twice.
pub open spec fn each_core_once(events: Seq<Event>, possible_cpus: u32) -> bool {
    &&& forall|i: int|
        0 <= i < events.len() && (#[trigger] events[i]) is CoreOnline ==> events[i]->core
            < possible_cpus
    &&& forall|i: int, j: int|
        0 <= i < j < events.len() && (#[trigger] events[i]) is CoreOnline && (
        #[trigger] events[j]) is CoreOnline ==> events[i]->core != events[j]->core
}

/// Where no core reports twice, there are as many cores that have reported
/// as there are increments.
proof fn lemma_cores_counted(events: Seq<Event>, possible_cpus: u32)
    requires
        each_core_once(events, possible_cpus),
    ensures
        cores(events).finite(),
        cores(events).len() == increments(events),
        cores(events).subset_of(set_int_range(0, possible_cpus as int)),
    decreases events.len(),
{
    if events.len() == 0 {
        assert(cores(events) =~= Set::empty());
    } else {
        let before = events.drop_last();
        let last = events.last();
        assert forall|i: int| 0 <= i < before.len() implies before[i] == events[i] by {}
        lemma_cores_counted(before, possible_cpus);
        if last is CoreOnline {
            let core = last->core as int;
            assert(!cores(before).contains(core)) by {
                if cores(before).contains(core) {
                    let i = choose|i: int| 0 <= i < before.len() && reports(before[i], core);
                    assert(events[i] is CoreOnline);
                    assert(events[events.len() - 1] is CoreOnline);
                }
            }
            assert(cores(events) =~= cores(before).insert(core)) by {
                assert forall|c: int| cores(before).insert(core).contains(c) implies cores(
                    events,
                ).contains(c) by {
                    if c == core {
                        assert(reports(events[events.len() - 1], c));
                    } else {
                        let i = choose|i: int| 0 <= i < before.len() && reports(before[i], c);
                        assert(reports(events[i], c));
                    }
                }
                assert forall|c: int| cores(events).contains(c) implies cores(before).insert(
                    core,
                ).contains(c) by {
                    let i = choose|i: int| 0 <= i < events.len() && reports(events[i], c);
                    if i < before.len() {
                        assert(reports(before[i], c));
                    }
                }
            }
            assert(events[events.len() - 1] is CoreOnline);
        } else {
            assert(cores(events) =~= cores(before)) by {
                assert forall|c: int| cores(before).contains(c) implies cores(events).contains(
                    c,
                ) by {
                    let i = choose|i: int| 0 <= i < before.len() && reports(before[i], c);
                    assert(reports(events[i], c));
                }
                assert forall|c: int| cores(events).contains(c) implies cores(before).contains(
                    c,
                ) by {
                    let i = choose|i: int| 0 <= i < events.len() && reports(events[i], c);
                    assert(reports(before[i], c));
                }
            }
        }
        assert forall|c: int| cores(events).contains(c) implies set_int_range(
            0,
            possible_cpus as int,
        ).contains(c) by {
            let i = choose|i: int| 0 <= i < events.len() && reports(events[i], c);
            assert(events[i] is CoreOnline);
        }
    }
}

/// Where only announced cores report and none twice, there are no more
/// increments than cores.
pub proof fn lemma_increments_bounded(events: Seq<Event>, possible_cpus: u32)
    requires
        each_core_once(events, possible_cpus),
    ensures
        increments(events) <= possible_cpus,
{
    lemma_cores_counted(events, possible_cpus);
    lemma_int_range(0, possible_cpus as int);
    lemma_len_subset(cores(events), set_int_range(0, possible_cpus as int));
}

/// As long as the counter does not wrap it counts the increments, and the
/// stack address is the one that was stored last.
pub proof fn lemma_run_counts(fields: SharedFields, events: Seq<Event>)
    requires
        fields.cpu_online + increments(events) <= u32::MAX,
    ensures
        fields.spec_run(events).cpu_online == fields.cpu_online + increments(events),
    decreases events.len(),
{
    if events.len() > 0 {
        lemma_run_counts(fields, events.drop_last());
    }
}

/// A part of a sequence in which each core reports once is such a sequence.
proof fn lemma_prefix_each_core_once(events: Seq<Event>, possible_cpus: u32, n: int)
    requires
        each_core_once(events, possible_cpus),
        0 <= n <= events.len(),
    ensures
        each_core_once(events.take(n), possible_cpus),
{
    let part = events.take(n);
    assert forall|i: int| 0 <= i < part.len() implies part[i] == events[i] by {}
}

/// The increments of a part of a sequence are among those of the whole.
proof fn lemma_increments_grow(events: Seq<Event>, m: int, n: int)
    requires
        0 <= m <= n <= events.len(),
    ensures
        increments(events.take(m)) <= increments(events.take(n)),
    decreases n - m,
{
    if m < n {
        assert(events.take(n).drop_last() =~= events.take(n - 1));
        lemma_increments_grow(events, m, n - 1);
    }
}

/// However the reports of the cores and the stores of the loader interleave,
/// if only announced cores report and none twice, then at every moment the
/// counter of a record that started at rest holds the number of reports so
/// far, and never more than the number of cores that the record announces.
pub proof fn lemma_online_never_exceeds_possible(
    events: Seq<Event>,
    possible_cpus: u32,
    n: int,
)
    requires
        each_core_once(events, possible_cpus),
        0 <= n <= events.len(),
    ensures
        SharedFields::spec_initial().spec_run(events.take(n)).cpu_online == increments(
            events.take(n),
        ),
        SharedFields::spec_initial().spec_run(events.take(n)).cpu_online <= possible_cpus,
{
    lemma_prefix_each_core_once(events, possible_cpus, n);
    lemma_increments_bounded(events.take(n), possible_cpus);
    lemma_run_counts(SharedFields::spec_initial(), events.take(n));
}

/// Under the same conditions the counter never decreases: what a later load
/// sees is at least what an earlier one saw.
pub proof fn lemma_online_never_decreases(
    events: Seq<Event>,
    possible_cpus: u32,
    m: int,
    n: int,
)
    requires
        each_core_once(events, possible_cpus),
        0 <= m <= n <= events.len(),
    ensures
        SharedFields::spec_initial().spec_run(events.take(m)).cpu_online
            <= SharedFields::spec_initial().spec_run(events.take(n)).cpu_online,
{
    lemma_online_never_exceeds_possible(events, possible_cpus, m);
    lemma_online_never_exceeds_possible(events, possible_cpus, n);
    lemma_increments_grow(events, m, n);
}

/// Once every announced core has reported, the counter holds their number.
pub proof fn lemma_all_cores_online(events: Seq<Event>, possible_cpus: u32)
    requires
        each_core_once(events, possible_cpus),
        forall|core: int| 0 <= core < possible_cpus ==> cores(events).contains(core),
    ensures
        SharedFields::spec_initial().spec_run(events).cpu_online == possible_cpus,
{
    lemma_cores_counted(events, possible_cpus);
    lemma_int_range(0, possible_cpus as int);
    assert(cores(events) =~= set_int_range(0, possible_cpus as int));
    assert(events.take(events.len() as int) =~= events);
    lemma_online_never_exceeds_possible(events, possible_cpus, events.len() as int);
}

/// A stored stack address is read back exactly, whatever it is and whatever
/// the fields held before, as long as no other store came after it: the
/// reports of cores that come in between leave it alone.
pub proof fn lemma_stack_address_round_trip(
    fields: SharedFields,
    events: Seq<Event>,
    stored: int,
    n: int,
)
    requires
        0 <= stored < n <= events.len(),
        events[stored] is StoreStack,
        forall|k: int| stored < k < n ==> (#[trigger] events[k]) is CoreOnline,
    ensures
        fields.spec_run(events.take(n)).current_stack_address == events[stored]->address,
    decreases n - stored,
{
    assert(events.take(n).drop_last() =~= events.take(n - 1));
    if stored + 1 < n {
        lemma_stack_address_round_trip(fields, events, stored, n - 1);
        assert(events.take(n).last() == events[n - 1]);
    }
}

/// Who sees a core counted comes behind the core's report. Where the report
/// stands at place `report` and a load of the counter sees at least the
/// number that the report brought it to, the load comes behind the report,
/// and so behind everything that came before the report.
pub proof fn lemma_counted_report_came_before(
    events: Seq<Event>,
    possible_cpus: u32,
    report: int,
    n: int,
)
    requires
        each_core_once(events, possible_cpus),
        0 <= report < events.len(),
        events[report] is CoreOnline,
        0 <= n <= events.len(),
        SharedFields::spec_initial().spec_run(events.take(n)).cpu_online >= increments(
            events.take(report + 1),
        ),
    ensures
        report < n,
{
    if n <= report {
        lemma_online_never_exceeds_possible(events, possible_cpus, n);
        lemma_increments_grow(events, n, report);
        assert(events.take(report + 1).drop_last() =~= events.take(report));
    }
}

/// What a core stored before it reported itself is seen by whoever sees the
/// core counted: a stack address that was stored before the report, and not
/// stored over since, is read by every load that comes with a counter which
/// holds the report.
pub proof fn lemma_store_before_report_is_seen(
    events: Seq<Event>,
    possible_cpus: u32,
    stored: int,
    report: int,
    n: int,
)
    requires
        each_core_once(events, possible_cpus),
        0 <= stored < report < events.len(),
        events[stored] is StoreStack,
        events[report] is CoreOnline,
        0 <= n <= events.len(),
        forall|k: int| stored < k < n ==> (#[trigger] events[k]) is CoreOnline,
        SharedFields::spec_initial().spec_run(events.take(n)).cpu_online >= increments(
            events.take(report + 1),
        ),
    ensures
        SharedFields::spec_initial().spec_run(events.take(n)).current_stack_address
            == events[stored]->address,
{
    lemma_counted_report_came_before(events, possible_cpus, report, n);
    lemma_stack_address_round_trip(SharedFields::spec_initial(), events, stored, n);
}

} // verus!
