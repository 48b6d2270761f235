//! The raw boot information record that loader and kernel share.
//!
//! The loader fills the record once, before it starts any core. From then on
//! everything in it is read only, but for two fields that change while cores
//! come up: the address of the stack that the next core is given, and the
//! number of cores that are online.
//!
//! A store and a report take the record by unique reference, a load by shared
//! reference, so that each contract says exactly what the record holds
//! afterwards. Where several cores work on one record in shared memory, each
//! store, report and load takes effect at one moment; what holds of the
//! record however these moments are ordered is proved where the events of
//! bringing cores up are described.

use crate::boot_info::BootInfo;
use crate::bringup::each_core_once;
use crate::bringup::lemma_increments_bounded;
use crate::bringup::lemma_run_counts;
use crate::bringup::Event;
use crate::bringup::SharedFields;
use crate::fields::raw_fields;
use crate::fields::RawFields;
use vstd::prelude::*;

verus! {

/// The boot information record.
#[derive(Debug)]
pub struct RawBootInfo {
    /// What never changes once the record is built.
    fields: RawFields,
    /// The current stack address and the number of initialized CPUs.
    shared: SharedFields,
}

/// Everything that a record holds.
pub struct RawContents {
    /// What never changes once the record is built.
    pub fields: RawFields,
    /// The two fields that change while cores come up.
    pub shared: SharedFields,
}

impl View for RawBootInfo {
    type V = RawContents;

    closed spec fn view(&self) -> RawContents {
        RawContents { fields: self.fields, shared: self.shared }
    }
}

impl RawBootInfo {
    #[verifier::type_invariant]
    spec fn inv(&self) -> bool {
        self.fields.well_formed()
    }

    /// Builds the record for `info`, as a loader does before it starts the
    /// first core: no core is online yet and no stack has been handed out.
    pub fn new(info: &BootInfo) -> (record: RawBootInfo)
        ensures
            record@.fields == raw_fields(*info),
            record@.shared == SharedFields::spec_initial(),
    {
        RawBootInfo { fields: RawFields::from_boot_info(info), shared: SharedFields::initial() }
    }

    /// Builds the record that holds `fields`, with a stack address and a
    /// number of cores online to start from, or nothing where the values do
    /// not fit the architecture's layout.
    pub fn from_fields(fields: RawFields, current_stack_address: u64, cpu_online: u32) -> (record:
        Option<RawBootInfo>)
        ensures
            record is Some <==> fields.well_formed(),
            record matches Some(r) ==> r@ == (RawContents {
                fields,
                shared: SharedFields { current_stack_address, cpu_online },
            }),
    {
        if !fields.is_well_formed() {
            return None;
        }
        Some(RawBootInfo { fields, shared: SharedFields { current_stack_address, cpu_online } })
    }

    /// The fields of the record that never change. They are well formed in
    /// every record.
    pub fn fields(&self) -> (fields: RawFields)
        ensures
            fields == self@.fields,
            fields.well_formed(),
    {
        proof {
            use_type_invariant(self);
        }
        self.fields
    }

    /// The two fields of the record that change, as they are now.
    pub fn shared(&self) -> (shared: SharedFields)
        ensures
            shared == self@.shared,
    {
        self.shared
    }

    /// Publishes the address of the stack that the core started next is
    /// given: from now on the record holds this address, whatever it held
    /// before, and everything else in it is as it was. Among the events of
    /// bringing cores up this is `Event::StoreStack`.
    pub fn store_current_stack_address(&mut self, current_stack_address: u64)
        ensures
            final(self)@.fields == old(self)@.fields,
            final(self)@.shared == old(self)@.shared.spec_stored(current_stack_address),
    {
        proof {
            use_type_invariant(&*self);
        }
        self.shared = self.shared.stored(current_stack_address);
    }

    /// Reads the stack address that was published last.
    pub fn load_current_stack_address(&self) -> (address: u64)
        ensures
            address == self@.shared.current_stack_address,
    {
        self.shared.current_stack_address
    }

    /// Reads the number of cores that are online.
    pub fn load_cpu_online(&self) -> (online: u32)
        ensures
            online == self@.shared.cpu_online,
    {
        self.shared.cpu_online
    }

    /// Counts the calling core as online: the counter is one more than it
    /// was, or zero where it was the largest number it can hold, and
    /// everything else in the record is as it was. A core calls this once,
    /// when its early boot is done. Among the events of bringing cores up
    /// this is `Event::CoreOnline`.
    pub fn increment_cpu_online(&mut self)
        ensures
            final(self)@.fields == old(self)@.fields,
            final(self)@.shared == old(self)@.shared.spec_counted(),
    {
        proof {
            use_type_invariant(&*self);
        }
        self.shared = self.shared.counted();
    }

    /// Does to the record what an event says: stores the stack address of a
    /// `StoreStack`, counts a core for a `CoreOnline`.
    pub fn apply(&mut self, event: Event)
        ensures
            final(self)@.fields == old(self)@.fields,
            final(self)@.shared == old(self)@.shared.spec_step(event),
    {
        match event {
            Event::StoreStack { address } => self.store_current_stack_address(address),
            Event::CoreOnline { .. } => self.increment_cpu_online(),
        }
    }

    /// Does to the record what the events of a sequence say, one after the
    /// other. Where no core was online before, only cores that the record
    /// announces report and none reports twice, the record ends with no more
    /// cores online than it announces, in whatever order the events come.
    pub fn replay(&mut self, events: &[Event])
        ensures
            final(self)@.fields == old(self)@.fields,
            final(self)@.shared == old(self)@.shared.spec_run(events@),
            old(self)@.shared.cpu_online == 0 && each_core_once(
                events@,
                old(self)@.fields.possible_cpus,
            ) ==> final(self)@.shared.cpu_online <= final(self)@.fields.possible_cpus,
    {
        let mut i: usize = 0;
        while i < events.len()
            invariant
                i <= events@.len(),
                self@.fields == old(self)@.fields,
                self@.shared == old(self)@.shared.spec_run(events@.take(i as int)),
            decreases events@.len() - i,
        {
            assert(events@.take(i + 1).drop_last() =~= events@.take(i as int));
            self.apply(events[i]);
            i = i + 1;
        }
        assert(events@.take(i as int) =~= events@);
        proof {
            let possible_cpus = old(self)@.fields.possible_cpus;
            if old(self)@.shared.cpu_online == 0 && each_core_once(events@, possible_cpus) {
                lemma_increments_bounded(events@, possible_cpus);
                lemma_run_counts(old(self)@.shared, events@);
            }
        }
    }
}

impl BootInfo {
    /// Reads the typed boot information out of a record. What the record
    /// holds for the way of booting that was not taken comes out as zero.
    /// The stack address and the number of cores that are online are not
    /// copied: they change, and are read from the record itself.
    pub fn from_raw(record: &RawBootInfo) -> (info: BootInfo)
        ensures
            info == record@.fields.boot_info(),
    {
        record.fields().to_boot_info()
    }
}

/// The boot information of a record as a kernel works with it: what never
/// changes in typed form, read once, and the record itself for the two
/// fields that change, which are read through it and never copied.
#[derive(Debug)]
pub struct BootInfoView<'a> {
    /// What never changes, in typed form.
    pub info: BootInfo,
    /// The record, through which the stack address and the number of cores
    /// online are read.
    pub record: &'a RawBootInfo,
}

impl<'a> BootInfoView<'a> {
    /// Reads the typed boot information out of a record and keeps the record
    /// at hand for the fields that change.
    pub fn from_raw(record: &'a RawBootInfo) -> (view: BootInfoView<'a>)
        ensures
            view.info == record@.fields.boot_info(),
            view.record == record,
    {
        BootInfoView { info: BootInfo::from_raw(record), record }
    }
}

} // verus!
