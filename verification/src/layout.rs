//! Where the fields of the raw record stand in memory.
//!
//! Loader and kernel are built apart and agree on the record byte by byte.
//! The fields follow one another in a fixed order, each at the next offset
//! that is a multiple of its alignment, as C lays out a struct.

use crate::arch::Arch;
use vstd::prelude::*;

verus! {

/// A field of the raw record.
#[derive(Clone, Copy, Debug, PartialEq, Eq, Structural)]
pub enum Field {
    MagicNumber,
    Version,
    Base,
    RamStart,
    Limit,
    ImageSize,
    TlsStart,
    TlsFilesz,
    TlsMemsz,
    TlsAlign,
    CurrentStackAddress,
    CurrentPercoreAddress,
    HostLogicalAddr,
    BootGtod,
    MbInfo,
    Cmdline,
    Cmdsize,
    CpuFreq,
    BootProcessor,
    CpuOnline,
    PossibleCpus,
    CurrentBootId,
    Uartport,
    SingleKernel,
    Uhyve,
    Hcip,
    Hcgateway,
    Hcmask,
}

impl Field {
    /// The number of bytes that the field takes.
    pub open spec fn spec_size(self, arch: Arch) -> nat {
        match self {
            Field::MagicNumber | Field::Version | Field::CpuFreq | Field::BootProcessor
            | Field::CpuOnline | Field::PossibleCpus | Field::CurrentBootId | Field::Hcip
            | Field::Hcgateway | Field::Hcmask => 4,
            Field::Uartport => match arch {
                Arch::X86_64 => 2,
                Arch::Aarch64 => 4,
            },
            Field::SingleKernel | Field::Uhyve => 1,
            _ => 8,
        }
    }

    /// The alignment of the field: its size, but for the three addresses of
    /// four bytes each, which are aligned as bytes are.
    pub open spec fn spec_align(self, arch: Arch) -> nat {
        match self {
            Field::Hcip | Field::Hcgateway | Field::Hcmask => 1,
            _ => self.spec_size(arch),
        }
    }

    /// The number of bytes that the field takes.
    pub fn size(self, arch: Arch) -> (size: usize)
        ensures
            size == self.spec_size(arch),
    {
        match self {
            Field::MagicNumber | Field::Version | Field::CpuFreq | Field::BootProcessor
            | Field::CpuOnline | Field::PossibleCpus | Field::CurrentBootId | Field::Hcip
            | Field::Hcgateway | Field::Hcmask => 4,
            Field::Uartport => match arch {
                Arch::X86_64 => 2,
                Arch::Aarch64 => 4,
            },
            Field::SingleKernel | Field::Uhyve => 1,
            _ => 8,
        }
    }

    /// The alignment of the field.
    pub fn align(self, arch: Arch) -> (align: usize)
        ensures
            align == self.spec_align(arch),
    {
        match self {
            Field::Hcip | Field::Hcgateway | Field::Hcmask => 1,
            _ => self.size(arch),
        }
    }
}

/// The alignment of the record as a whole.
pub const RECORD_ALIGN: usize = 8;

/// The number of fields that the record has on either architecture.
pub const FIELD_COUNT: usize = 27;

/// The fields of the record in the order in which they stand. Only AArch64
/// has the start of memory; only x86-64 has the multiboot information, and
/// there the TLS alignment was added last.
pub open spec fn field_order(arch: Arch) -> Seq<Field> {
    match arch {
        Arch::X86_64 => seq![
            Field::MagicNumber,
            Field::Version,
            Field::Base,
            Field::Limit,
            Field::ImageSize,
            Field::TlsStart,
            Field::TlsFilesz,
            Field::TlsMemsz,
            Field::CurrentStackAddress,
            Field::CurrentPercoreAddress,
            Field::HostLogicalAddr,
            Field::BootGtod,
            Field::MbInfo,
            Field::Cmdline,
            Field::Cmdsize,
            Field::CpuFreq,
            Field::BootProcessor,
            Field::CpuOnline,
            Field::PossibleCpus,
            Field::CurrentBootId,
            Field::Uartport,
            Field::SingleKernel,
            Field::Uhyve,
            Field::Hcip,
            Field::Hcgateway,
            Field::Hcmask,
            Field::TlsAlign,
        ],
        Arch::Aarch64 => seq![
            Field::MagicNumber,
            Field::Version,
            Field::Base,
            Field::RamStart,
            Field::Limit,
            Field::ImageSize,
            Field::TlsStart,
            Field::TlsFilesz,
            Field::TlsMemsz,
            Field::TlsAlign,
            Field::CurrentStackAddress,
            Field::CurrentPercoreAddress,
            Field::HostLogicalAddr,
            Field::BootGtod,
            Field::Cmdline,
            Field::Cmdsize,
            Field::CpuFreq,
            Field::BootProcessor,
            Field::CpuOnline,
            Field::PossibleCpus,
            Field::CurrentBootId,
            Field::Uartport,
            Field::SingleKernel,
            Field::Uhyve,
            Field::Hcip,
            Field::Hcgateway,
            Field::Hcmask,
        ],
    }
}

/// The least multiple of `align` that is not below `at`.
pub open spec fn aligned_up(at: nat, align: nat) -> nat {
    if align == 0 || at % align == 0 {
        at
    } else {
        (at + align - at % align) as nat
    }
}

/// The offset of the field that stands at place `k` of the order: the first
/// field stands at zero, each other one at the first offset behind the field
/// before it that its alignment allows.
pub open spec fn offset_at(arch: Arch, k: nat) -> nat
    decreases k,
{
    if k == 0 {
        0
    } else {
        aligned_up(
            offset_at(arch, (k - 1) as nat) + field_order(arch)[k - 1].spec_size(arch),
            field_order(arch)[k as int].spec_align(arch),
        )
    }
}

/// The offset behind the field that stands at place `k` of the order.
pub open spec fn end_at(arch: Arch, k: nat) -> nat {
    offset_at(arch, k) + field_order(arch)[k as int].spec_size(arch)
}

/// The first place at which a field stands in an order, if it stands there.
pub open spec fn place_in(order: Seq<Field>, field: Field) -> Option<nat>
    decreases order.len(),
{
    if order.len() == 0 {
        None
    } else if place_in(order.drop_last(), field) is Some {
        place_in(order.drop_last(), field)
    } else if order.last() == field {
        Some((order.len() - 1) as nat)
    } else {
        None
    }
}

/// The offset of a field, if the architecture has the field.
pub open spec fn spec_offset_of(arch: Arch, field: Field) -> Option<nat> {
    match place_in(field_order(arch), field) {
        Some(k) => Some(offset_at(arch, k)),
        None => None,
    }
}

/// The size of the record: the offset behind its last field, rounded up to
/// the record's alignment.
pub open spec fn spec_record_size(arch: Arch) -> nat {
    aligned_up(end_at(arch, (field_order(arch).len() - 1) as nat), RECORD_ALIGN as nat)
}

/// The fields of the record in the order in which they stand on x86-64.
fn order_x86_64() -> (order: [Field; FIELD_COUNT])
    ensures
        order@ == field_order(Arch::X86_64),
{
    let order: [Field; FIELD_COUNT] = [
        Field::MagicNumber,
        Field::Version,
        Field::Base,
        Field::Limit,
        Field::ImageSize,
        Field::TlsStart,
        Field::TlsFilesz,
        Field::TlsMemsz,
        Field::CurrentStackAddress,
        Field::CurrentPercoreAddress,
        Field::HostLogicalAddr,
        Field::BootGtod,
        Field::MbInfo,
        Field::Cmdline,
        Field::Cmdsize,
        Field::CpuFreq,
        Field::BootProcessor,
        Field::CpuOnline,
        Field::PossibleCpus,
        Field::CurrentBootId,
        Field::Uartport,
        Field::SingleKernel,
        Field::Uhyve,
        Field::Hcip,
        Field::Hcgateway,
        Field::Hcmask,
        Field::TlsAlign,
    ];
    assert(order@ =~= field_order(Arch::X86_64));
    order
}

/// The fields of the record in the order in which they stand on AArch64.
fn order_aarch64() -> (order: [Field; FIELD_COUNT])
    ensures
        order@ == field_order(Arch::Aarch64),
{
    let order: [Field; FIELD_COUNT] = [
        Field::MagicNumber,
        Field::Version,
        Field::Base,
        Field::RamStart,
        Field::Limit,
        Field::ImageSize,
        Field::TlsStart,
        Field::TlsFilesz,
        Field::TlsMemsz,
        Field::TlsAlign,
        Field::CurrentStackAddress,
        Field::CurrentPercoreAddress,
        Field::HostLogicalAddr,
        Field::BootGtod,
        Field::Cmdline,
        Field::Cmdsize,
        Field::CpuFreq,
        Field::BootProcessor,
        Field::CpuOnline,
        Field::PossibleCpus,
        Field::CurrentBootId,
        Field::Uartport,
        Field::SingleKernel,
        Field::Uhyve,
        Field::Hcip,
        Field::Hcgateway,
        Field::Hcmask,
    ];
    assert(order@ =~= field_order(Arch::Aarch64));
    order
}

/// Rounds an offset up to a multiple of an alignment.
fn align_up(at: usize, align: usize) -> (aligned: usize)
    requires
        0 < align <= 8,
        at <= 0x1000,
    ensures
        aligned == aligned_up(at as nat, align as nat),
        at <= aligned < at + align,
        aligned % align == 0,
{
    let over: usize = at % align;
    if over == 0 {
        at
    } else {
        let aligned: usize = at + align - over;
        assert(aligned % align == 0) by (nonlinear_arith)
            requires
                aligned == at + align - over,
                over == at % align,
                0 < align,
        ;
        aligned
    }
}

/// A field that stands at a place of a part of an order stands at the same
/// place of the whole.
proof fn lemma_place_in_part(order: Seq<Field>, field: Field, n: int)
    requires
        0 <= n <= order.len(),
        place_in(order.take(n), field) is Some,
    ensures
        place_in(order, field) == place_in(order.take(n), field),
    decreases order.len() - n,
{
    if n < order.len() {
        assert(order.take(n + 1).drop_last() =~= order.take(n));
        lemma_place_in_part(order, field, n + 1);
    } else {
        assert(order.take(n) =~= order);
    }
}

/// The fields of the record in the order in which they stand.
pub(crate) fn order_of(arch: Arch) -> (order: [Field; FIELD_COUNT])
    ensures
        order@ == field_order(arch),
{
    match arch {
        Arch::X86_64 => order_x86_64(),
        Arch::Aarch64 => order_aarch64(),
    }
}

/// The first place at which a field stands in an order.
fn find_place(order: &[Field; FIELD_COUNT], field: Field) -> (place: Option<usize>)
    ensures
        match place {
            Some(k) => place_in(order@, field) == Some(k as nat) && k < FIELD_COUNT,
            None => place_in(order@, field) is None,
        },
{
    let mut k: usize = 0;
    while k < FIELD_COUNT
        invariant
            k <= FIELD_COUNT,
            order@.len() == FIELD_COUNT,
            place_in(order@.take(k as int), field) is None,
        decreases FIELD_COUNT - k,
    {
        assert(order@.take(k + 1).drop_last() =~= order@.take(k as int));
        if order[k] == field {
            proof {
                lemma_place_in_part(order@, field, k + 1);
            }
            return Some(k);
        }
        k = k + 1;
    }
    assert(order@.take(FIELD_COUNT as int) =~= order@);
    None
}

/// No field of the record stands more than sixteen bytes behind the start
/// of the field before it.
proof fn lemma_offset_bounded(arch: Arch, k: nat)
    requires
        k < FIELD_COUNT,
    ensures
        offset_at(arch, k) <= 16 * k,
    decreases k,
{
    if k > 0 {
        lemma_offset_bounded(arch, (k - 1) as nat);
        let before = field_order(arch)[k - 1];
        let field = field_order(arch)[k as int];
        let end = offset_at(arch, (k - 1) as nat) + before.spec_size(arch);
        let align = field.spec_align(arch);
        assert(before.spec_size(arch) <= 8);
        assert(1 <= align <= 8);
        assert(aligned_up(end, align) < end + align) by (nonlinear_arith)
            requires
                1 <= align,
        ;
    }
}

/// The offset of the field that stands at place `k` of the order.
pub(crate) fn offset_of_place(arch: Arch, order: &[Field; FIELD_COUNT], k: usize) -> (offset: usize)
    requires
        k < FIELD_COUNT,
        order@ == field_order(arch),
    ensures
        offset == offset_at(arch, k as nat),
{
    let mut at: usize = 0;
    let mut i: usize = 0;
    while i < k
        invariant
            i <= k < FIELD_COUNT,
            order@ == field_order(arch),
            at == offset_at(arch, i as nat),
        decreases k - i,
    {
        proof {
            lemma_offset_bounded(arch, i as nat);
        }
        let end: usize = at + order[i].size(arch);
        i = i + 1;
        at = align_up(end, order[i].align(arch));
    }
    at
}

/// The offset of a field in the record of an architecture, or `None` where
/// the architecture has no such field.
pub fn offset_of(arch: Arch, field: Field) -> (offset: Option<usize>)
    ensures
        match offset {
            Some(at) => spec_offset_of(arch, field) == Some(at as nat),
            None => spec_offset_of(arch, field) is None,
        },
{
    let order = order_of(arch);
    match find_place(&order, field) {
        Some(k) => Some(offset_of_place(arch, &order, k)),
        None => None,
    }
}

/// The size of the record of an architecture.
pub fn record_size(arch: Arch) -> (size: usize)
    ensures
        size == spec_record_size(arch),
{
    let order = order_of(arch);
    let last: usize = offset_of_place(arch, &order, FIELD_COUNT - 1);
    proof {
        lemma_offset_bounded(arch, (FIELD_COUNT - 1) as nat);
    }
    align_up(last + order[FIELD_COUNT - 1].size(arch), RECORD_ALIGN)
}

/// An offset that was rounded up is a multiple of the alignment, and lies
/// less than the alignment above the offset it was rounded from.
pub proof fn lemma_aligned_up(at: nat, align: nat)
    requires
        align > 0,
    ensures
        aligned_up(at, align) % align == 0,
        at <= aligned_up(at, align) < at + align,
{
    assert(aligned_up(at, align) % align == 0 && at <= aligned_up(at, align) < at + align)
        by (nonlinear_arith)
        requires
            align > 0,
            aligned_up(at, align) == (if at % align == 0 {
                at
            } else {
                (at + align - at % align) as nat
            }),
    ;
}

/// On both architectures every field stands at a multiple of its alignment,
/// and behind the field before it with no more room between the two than
/// the alignment asks for: no two fields overlap.
pub proof fn lemma_naturally_aligned(arch: Arch, k: nat)
    requires
        k < field_order(arch).len(),
    ensures
        offset_at(arch, k) % field_order(arch)[k as int].spec_align(arch) == 0,
        k > 0 ==> end_at(arch, (k - 1) as nat) <= offset_at(arch, k) < end_at(
            arch,
            (k - 1) as nat,
        ) + field_order(arch)[k as int].spec_align(arch),
{
    let align = field_order(arch)[k as int].spec_align(arch);
    assert(align > 0);
    if k > 0 {
        lemma_aligned_up(end_at(arch, (k - 1) as nat), align);
    } else {
        assert(0nat % align == 0) by (nonlinear_arith)
            requires
                align > 0,
        ;
    }
}

/// The place of a field in an order is a place of the order, and the field
/// stands there.
pub proof fn lemma_place_is_field(order: Seq<Field>, field: Field)
    requires
        place_in(order, field) is Some,
    ensures
        place_in(order, field)->0 < order.len(),
        order[place_in(order, field)->0 as int] == field,
    decreases order.len(),
{
    if place_in(order.drop_last(), field) is Some {
        lemma_place_is_field(order.drop_last(), field);
    }
}

/// A field that stands behind another one ends behind it.
pub proof fn lemma_end_grows(arch: Arch, k: nat, j: nat)
    requires
        k <= j < field_order(arch).len(),
    ensures
        end_at(arch, k) <= end_at(arch, j),
    decreases j - k,
{
    if k < j {
        lemma_end_grows(arch, k, (j - 1) as nat);
        lemma_naturally_aligned(arch, j);
    }
}

/// Every field that an architecture has lies within the record.
pub proof fn lemma_field_within_record(arch: Arch, field: Field)
    requires
        spec_offset_of(arch, field) is Some,
    ensures
        spec_offset_of(arch, field)->0 + field.spec_size(arch) <= spec_record_size(arch),
{
    let order = field_order(arch);
    lemma_place_is_field(order, field);
    let k = place_in(order, field)->0;
    lemma_end_grows(arch, k, (FIELD_COUNT - 1) as nat);
    lemma_aligned_up(end_at(arch, (FIELD_COUNT - 1) as nat), RECORD_ALIGN as nat);
}

/// The field at place `k` stands at `at` where the field before it ends at
/// `end` and `at` is the least multiple of the field's alignment from there.
proof fn lemma_next_offset(
    arch: Arch,
    k: nat,
    before: Field,
    field: Field,
    end: nat,
    align: nat,
    at: nat,
)
    requires
        0 < k < FIELD_COUNT,
        field_order(arch)[k - 1] == before,
        field_order(arch)[k as int] == field,
        offset_at(arch, (k - 1) as nat) + before.spec_size(arch) == end,
        field.spec_align(arch) == align,
        aligned_up(end, align) == at,
    ensures
        offset_at(arch, k) == at,
{
}

/// The field that stands at place `k` of an order, and at none before it,
/// has `k` for its place.
proof fn lemma_place_found(order: Seq<Field>, field: Field, k: nat)
    requires
        k < order.len(),
        order[k as int] == field,
        forall|j: int| 0 <= j < k ==> order[j] != field,
    ensures
        place_in(order, field) == Some(k),
{
    lemma_place_absent(order.take(k as int), field);
    assert(order.take(k as int + 1).drop_last() =~= order.take(k as int));
    lemma_place_in_part(order, field, k as int + 1);
}

/// A field that stands nowhere in an order has no place in it.
proof fn lemma_place_absent(order: Seq<Field>, field: Field)
    requires
        forall|j: int| 0 <= j < order.len() ==> order[j] != field,
    ensures
        place_in(order, field) is None,
    decreases order.len(),
{
    if order.len() > 0 {
        lemma_place_absent(order.drop_last(), field);
    }
}

/// The offsets of the fields and the size of the record on x86-64.
pub proof fn lemma_offsets_x86_64()
    ensures
        spec_offset_of(Arch::X86_64, Field::MagicNumber) == Some(0nat),
        spec_offset_of(Arch::X86_64, Field::Version) == Some(4nat),
        spec_offset_of(Arch::X86_64, Field::Base) == Some(8nat),
        spec_offset_of(Arch::X86_64, Field::Limit) == Some(16nat),
        spec_offset_of(Arch::X86_64, Field::ImageSize) == Some(24nat),
        spec_offset_of(Arch::X86_64, Field::TlsStart) == Some(32nat),
        spec_offset_of(Arch::X86_64, Field::TlsFilesz) == Some(40nat),
        spec_offset_of(Arch::X86_64, Field::TlsMemsz) == Some(48nat),
        spec_offset_of(Arch::X86_64, Field::CurrentStackAddress) == Some(56nat),
        spec_offset_of(Arch::X86_64, Field::CurrentPercoreAddress) == Some(64nat),
        spec_offset_of(Arch::X86_64, Field::HostLogicalAddr) == Some(72nat),
        spec_offset_of(Arch::X86_64, Field::BootGtod) == Some(80nat),
        spec_offset_of(Arch::X86_64, Field::MbInfo) == Some(88nat),
        spec_offset_of(Arch::X86_64, Field::Cmdline) == Some(96nat),
        spec_offset_of(Arch::X86_64, Field::Cmdsize) == Some(104nat),
        spec_offset_of(Arch::X86_64, Field::CpuFreq) == Some(112nat),
        spec_offset_of(Arch::X86_64, Field::BootProcessor) == Some(116nat),
        spec_offset_of(Arch::X86_64, Field::CpuOnline) == Some(120nat),
        spec_offset_of(Arch::X86_64, Field::PossibleCpus) == Some(124nat),
        spec_offset_of(Arch::X86_64, Field::CurrentBootId) == Some(128nat),
        spec_offset_of(Arch::X86_64, Field::Uartport) == Some(132nat),
        spec_offset_of(Arch::X86_64, Field::SingleKernel) == Some(134nat),
        spec_offset_of(Arch::X86_64, Field::Uhyve) == Some(135nat),
        spec_offset_of(Arch::X86_64, Field::Hcip) == Some(136nat),
        spec_offset_of(Arch::X86_64, Field::Hcgateway) == Some(140nat),
        spec_offset_of(Arch::X86_64, Field::Hcmask) == Some(144nat),
        spec_offset_of(Arch::X86_64, Field::TlsAlign) == Some(152nat),
        spec_offset_of(Arch::X86_64, Field::RamStart) is None,
        spec_record_size(Arch::X86_64) == 160,
{
    let arch = Arch::X86_64;
    let order = field_order(arch);
    lemma_place_found(order, Field::MagicNumber, 0);
    lemma_next_offset(arch, 1, Field::MagicNumber, Field::Version, 4, 4, 4);
    lemma_place_found(order, Field::Version, 1);
    lemma_next_offset(arch, 2, Field::Version, Field::Base, 8, 8, 8);
    lemma_place_found(order, Field::Base, 2);
    lemma_next_offset(arch, 3, Field::Base, Field::Limit, 16, 8, 16);
    lemma_place_found(order, Field::Limit, 3);
    lemma_next_offset(arch, 4, Field::Limit, Field::ImageSize, 24, 8, 24);
    lemma_place_found(order, Field::ImageSize, 4);
    lemma_next_offset(arch, 5, Field::ImageSize, Field::TlsStart, 32, 8, 32);
    lemma_place_found(order, Field::TlsStart, 5);
    lemma_next_offset(arch, 6, Field::TlsStart, Field::TlsFilesz, 40, 8, 40);
    lemma_place_found(order, Field::TlsFilesz, 6);
    lemma_next_offset(arch, 7, Field::TlsFilesz, Field::TlsMemsz, 48, 8, 48);
    lemma_place_found(order, Field::TlsMemsz, 7);
    lemma_next_offset(arch, 8, Field::TlsMemsz, Field::CurrentStackAddress, 56, 8, 56);
    lemma_place_found(order, Field::CurrentStackAddress, 8);
    lemma_next_offset(arch, 9, Field::CurrentStackAddress, Field::CurrentPercoreAddress, 64, 8, 64);
    lemma_place_found(order, Field::CurrentPercoreAddress, 9);
    lemma_next_offset(arch, 10, Field::CurrentPercoreAddress, Field::HostLogicalAddr, 72, 8, 72);
    lemma_place_found(order, Field::HostLogicalAddr, 10);
    lemma_next_offset(arch, 11, Field::HostLogicalAddr, Field::BootGtod, 80, 8, 80);
    lemma_place_found(order, Field::BootGtod, 11);
    lemma_next_offset(arch, 12, Field::BootGtod, Field::MbInfo, 88, 8, 88);
    lemma_place_found(order, Field::MbInfo, 12);
    lemma_next_offset(arch, 13, Field::MbInfo, Field::Cmdline, 96, 8, 96);
    lemma_place_found(order, Field::Cmdline, 13);
    lemma_next_offset(arch, 14, Field::Cmdline, Field::Cmdsize, 104, 8, 104);
    lemma_place_found(order, Field::Cmdsize, 14);
    lemma_next_offset(arch, 15, Field::Cmdsize, Field::CpuFreq, 112, 4, 112);
    lemma_place_found(order, Field::CpuFreq, 15);
    lemma_next_offset(arch, 16, Field::CpuFreq, Field::BootProcessor, 116, 4, 116);
    lemma_place_found(order, Field::BootProcessor, 16);
    lemma_next_offset(arch, 17, Field::BootProcessor, Field::CpuOnline, 120, 4, 120);
    lemma_place_found(order, Field::CpuOnline, 17);
    lemma_next_offset(arch, 18, Field::CpuOnline, Field::PossibleCpus, 124, 4, 124);
    lemma_place_found(order, Field::PossibleCpus, 18);
    lemma_next_offset(arch, 19, Field::PossibleCpus, Field::CurrentBootId, 128, 4, 128);
    lemma_place_found(order, Field::CurrentBootId, 19);
    lemma_next_offset(arch, 20, Field::CurrentBootId, Field::Uartport, 132, 2, 132);
    lemma_place_found(order, Field::Uartport, 20);
    lemma_next_offset(arch, 21, Field::Uartport, Field::SingleKernel, 134, 1, 134);
    lemma_place_found(order, Field::SingleKernel, 21);
    lemma_next_offset(arch, 22, Field::SingleKernel, Field::Uhyve, 135, 1, 135);
    lemma_place_found(order, Field::Uhyve, 22);
    lemma_next_offset(arch, 23, Field::Uhyve, Field::Hcip, 136, 1, 136);
    lemma_place_found(order, Field::Hcip, 23);
    lemma_next_offset(arch, 24, Field::Hcip, Field::Hcgateway, 140, 1, 140);
    lemma_place_found(order, Field::Hcgateway, 24);
    lemma_next_offset(arch, 25, Field::Hcgateway, Field::Hcmask, 144, 1, 144);
    lemma_place_found(order, Field::Hcmask, 25);
    lemma_next_offset(arch, 26, Field::Hcmask, Field::TlsAlign, 148, 8, 152);
    lemma_place_found(order, Field::TlsAlign, 26);
    lemma_place_absent(order, Field::RamStart);
}

/// The offsets of the fields and the size of the record on AArch64.
pub proof fn lemma_offsets_aarch64()
    ensures
        spec_offset_of(Arch::Aarch64, Field::MagicNumber) == Some(0nat),
        spec_offset_of(Arch::Aarch64, Field::Version) == Some(4nat),
        spec_offset_of(Arch::Aarch64, Field::Base) == Some(8nat),
        spec_offset_of(Arch::Aarch64, Field::RamStart) == Some(16nat),
        spec_offset_of(Arch::Aarch64, Field::Limit) == Some(24nat),
        spec_offset_of(Arch::Aarch64, Field::ImageSize) == Some(32nat),
        spec_offset_of(Arch::Aarch64, Field::TlsStart) == Some(40nat),
        spec_offset_of(Arch::Aarch64, Field::TlsFilesz) == Some(48nat),
        spec_offset_of(Arch::Aarch64, Field::TlsMemsz) == Some(56nat),
        spec_offset_of(Arch::Aarch64, Field::TlsAlign) == Some(64nat),
        spec_offset_of(Arch::Aarch64, Field::CurrentStackAddress) == Some(72nat),
        spec_offset_of(Arch::Aarch64, Field::CurrentPercoreAddress) == Some(80nat),
        spec_offset_of(Arch::Aarch64, Field::HostLogicalAddr) == Some(88nat),
        spec_offset_of(Arch::Aarch64, Field::BootGtod) == Some(96nat),
        spec_offset_of(Arch::Aarch64, Field::Cmdline) == Some(104nat),
        spec_offset_of(Arch::Aarch64, Field::Cmdsize) == Some(112nat),
        spec_offset_of(Arch::Aarch64, Field::CpuFreq) == Some(120nat),
        spec_offset_of(Arch::Aarch64, Field::BootProcessor) == Some(124nat),
        spec_offset_of(Arch::Aarch64, Field::CpuOnline) == Some(128nat),
        spec_offset_of(Arch::Aarch64, Field::PossibleCpus) == Some(132nat),
        spec_offset_of(Arch::Aarch64, Field::CurrentBootId) == Some(136nat),
        spec_offset_of(Arch::Aarch64, Field::Uartport) == Some(140nat),
        spec_offset_of(Arch::Aarch64, Field::SingleKernel) == Some(144nat),
        spec_offset_of(Arch::Aarch64, Field::Uhyve) == Some(145nat),
        spec_offset_of(Arch::Aarch64, Field::Hcip) == Some(146nat),
        spec_offset_of(Arch::Aarch64, Field::Hcgateway) == Some(150nat),
        spec_offset_of(Arch::Aarch64, Field::Hcmask) == Some(154nat),
        spec_offset_of(Arch::Aarch64, Field::MbInfo) is None,
        spec_record_size(Arch::Aarch64) == 160,
{
    let arch = Arch::Aarch64;
    let order = field_order(arch);
    lemma_place_found(order, Field::MagicNumber, 0);
    lemma_next_offset(arch, 1, Field::MagicNumber, Field::Version, 4, 4, 4);
    lemma_place_found(order, Field::Version, 1);
    lemma_next_offset(arch, 2, Field::Version, Field::Base, 8, 8, 8);
    lemma_place_found(order, Field::Base, 2);
    lemma_next_offset(arch, 3, Field::Base, Field::RamStart, 16, 8, 16);
    lemma_place_found(order, Field::RamStart, 3);
    lemma_next_offset(arch, 4, Field::RamStart, Field::Limit, 24, 8, 24);
    lemma_place_found(order, Field::Limit, 4);
    lemma_next_offset(arch, 5, Field::Limit, Field::ImageSize, 32, 8, 32);
    lemma_place_found(order, Field::ImageSize, 5);
    lemma_next_offset(arch, 6, Field::ImageSize, Field::TlsStart, 40, 8, 40);
    lemma_place_found(order, Field::TlsStart, 6);
    lemma_next_offset(arch, 7, Field::TlsStart, Field::TlsFilesz, 48, 8, 48);
    lemma_place_found(order, Field::TlsFilesz, 7);
    lemma_next_offset(arch, 8, Field::TlsFilesz, Field::TlsMemsz, 56, 8, 56);
    lemma_place_found(order, Field::TlsMemsz, 8);
    lemma_next_offset(arch, 9, Field::TlsMemsz, Field::TlsAlign, 64, 8, 64);
    lemma_place_found(order, Field::TlsAlign, 9);
    lemma_next_offset(arch, 10, Field::TlsAlign, Field::CurrentStackAddress, 72, 8, 72);
    lemma_place_found(order, Field::CurrentStackAddress, 10);
    lemma_next_offset(arch, 11, Field::CurrentStackAddress, Field::CurrentPercoreAddress, 80, 8, 80);
    lemma_place_found(order, Field::CurrentPercoreAddress, 11);
    lemma_next_offset(arch, 12, Field::CurrentPercoreAddress, Field::HostLogicalAddr, 88, 8, 88);
    lemma_place_found(order, Field::HostLogicalAddr, 12);
    lemma_next_offset(arch, 13, Field::HostLogicalAddr, Field::BootGtod, 96, 8, 96);
    lemma_place_found(order, Field::BootGtod, 13);
    lemma_next_offset(arch, 14, Field::BootGtod, Field::Cmdline, 104, 8, 104);
    lemma_place_found(order, Field::Cmdline, 14);
    lemma_next_offset(arch, 15, Field::Cmdline, Field::Cmdsize, 112, 8, 112);
    lemma_place_found(order, Field::Cmdsize, 15);
    lemma_next_offset(arch, 16, Field::Cmdsize, Field::CpuFreq, 120, 4, 120);
    lemma_place_found(order, Field::CpuFreq, 16);
    lemma_next_offset(arch, 17, Field::CpuFreq, Field::BootProcessor, 124, 4, 124);
    lemma_place_found(order, Field::BootProcessor, 17);
    lemma_next_offset(arch, 18, Field::BootProcessor, Field::CpuOnline, 128, 4, 128);
    lemma_place_found(order, Field::CpuOnline, 18);
    lemma_next_offset(arch, 19, Field::CpuOnline, Field::PossibleCpus, 132, 4, 132);
    lemma_place_found(order, Field::PossibleCpus, 19);
    lemma_next_offset(arch, 20, Field::PossibleCpus, Field::CurrentBootId, 136, 4, 136);
    lemma_place_found(order, Field::CurrentBootId, 20);
    lemma_next_offset(arch, 21, Field::CurrentBootId, Field::Uartport, 140, 4, 140);
    lemma_place_found(order, Field::Uartport, 21);
    lemma_next_offset(arch, 22, Field::Uartport, Field::SingleKernel, 144, 1, 144);
    lemma_place_found(order, Field::SingleKernel, 22);
    lemma_next_offset(arch, 23, Field::SingleKernel, Field::Uhyve, 145, 1, 145);
    lemma_place_found(order, Field::Uhyve, 23);
    lemma_next_offset(arch, 24, Field::Uhyve, Field::Hcip, 146, 1, 146);
    lemma_place_found(order, Field::Hcip, 24);
    lemma_next_offset(arch, 25, Field::Hcip, Field::Hcgateway, 150, 1, 150);
    lemma_place_found(order, Field::Hcgateway, 25);
    lemma_next_offset(arch, 26, Field::Hcgateway, Field::Hcmask, 154, 1, 154);
    lemma_place_found(order, Field::Hcmask, 26);
    lemma_place_absent(order, Field::MbInfo);
}

/// Whether an architecture has a field: x86-64 lacks the start of memory,
/// AArch64 the multiboot information.
pub open spec fn has_field(arch: Arch, field: Field) -> bool {
    match arch {
        Arch::X86_64 => field != Field::RamStart,
        Arch::Aarch64 => field != Field::MbInfo,
    }
}

/// A field has an offset on the architectures that have the field, and on
/// no other.
pub proof fn lemma_offset_where_present(arch: Arch, field: Field)
    ensures
        spec_offset_of(arch, field) is Some <==> has_field(arch, field),
{
    lemma_offsets_x86_64();
    lemma_offsets_aarch64();
}

} // verus!
