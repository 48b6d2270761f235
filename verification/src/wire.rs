//! The record as the bytes that loader and kernel share.
//!
//! Every field is written in little-endian order at its offset in the
//! architecture's layout; the room that alignment leaves between two fields
//! is zero.

use crate::arch::Arch;
use crate::bringup::SharedFields;
use crate::fields::RawFields;
use crate::layout::end_at;
use crate::layout::field_order;
use crate::layout::has_field;
use crate::layout::lemma_aligned_up;
use crate::layout::lemma_field_within_record;
use crate::layout::lemma_naturally_aligned;
use crate::layout::lemma_offset_where_present;
use crate::layout::lemma_place_is_field;
use crate::layout::offset_at;
use crate::layout::offset_of;
use crate::layout::offset_of_place;
use crate::layout::order_of;
use crate::layout::place_in;
use crate::layout::record_size;
use crate::layout::spec_offset_of;
use crate::layout::spec_record_size;
use crate::layout::Field;
use crate::layout::FIELD_COUNT;
use crate::layout::RECORD_ALIGN;
use crate::le::le_bytes;
use crate::le::le_value;
use crate::le::lemma_le_bytes_len;
use crate::le::lemma_le_bytes_of_value;
use crate::le::lemma_le_round_trip;
use crate::le::lemma_le_value_bounded;
use crate::le::lemma_radix_positive;
use crate::le::lemma_radix_values;
use crate::le::push_le;
use crate::le::radix;
use crate::le::read_le;
use vstd::arithmetic::div_mod::lemma_small_mod;
use vstd::prelude::*;

verus! {

/// `n` zero bytes.
pub open spec fn zeros(n: nat) -> Seq<u8> {
    Seq::new(n, |i: int| 0u8)
}

/// Appends zero bytes until there are `upto` bytes.
fn push_zeros(bytes: &mut Vec<u8>, upto: usize)
    requires
        old(bytes)@.len() <= upto,
    ensures
        final(bytes)@ == old(bytes)@ + zeros((upto - old(bytes)@.len()) as nat),
{
    let ghost start = bytes@;
    while bytes.len() < upto
        invariant
            start.len() <= bytes@.len() <= upto,
            bytes@ == start + zeros((bytes@.len() - start.len()) as nat),
        decreases upto - bytes@.len(),
    {
        bytes.push(0);
        assert(bytes@ =~= start + zeros((bytes@.len() - start.len()) as nat));
    }
}

/// The number that a field of the record holds. The three addresses of four
/// bytes each count as the number that their bytes stand for.
pub open spec fn field_value(fields: RawFields, shared: SharedFields, field: Field) -> nat {
    match field {
        Field::MagicNumber => fields.magic_number as nat,
        Field::Version => fields.version as nat,
        Field::Base => fields.base as nat,
        Field::RamStart => fields.ram_start as nat,
        Field::Limit => fields.limit as nat,
        Field::ImageSize => fields.image_size as nat,
        Field::TlsStart => fields.tls_start as nat,
        Field::TlsFilesz => fields.tls_filesz as nat,
        Field::TlsMemsz => fields.tls_memsz as nat,
        Field::TlsAlign => fields.tls_align as nat,
        Field::CurrentStackAddress => shared.current_stack_address as nat,
        Field::CurrentPercoreAddress => fields.current_percore_address as nat,
        Field::HostLogicalAddr => fields.host_logical_addr as nat,
        Field::BootGtod => fields.boot_gtod as nat,
        Field::MbInfo => fields.mb_info as nat,
        Field::Cmdline => fields.cmdline as nat,
        Field::Cmdsize => fields.cmdsize as nat,
        Field::CpuFreq => fields.cpu_freq as nat,
        Field::BootProcessor => fields.boot_processor as nat,
        Field::CpuOnline => shared.cpu_online as nat,
        Field::PossibleCpus => fields.possible_cpus as nat,
        Field::CurrentBootId => fields.current_boot_id as nat,
        Field::Uartport => fields.uartport as nat,
        Field::SingleKernel => fields.single_kernel as nat,
        Field::Uhyve => fields.uhyve as nat,
        Field::Hcip => le_value(fields.hcip@),
        Field::Hcgateway => le_value(fields.hcgateway@),
        Field::Hcmask => le_value(fields.hcmask@),
    }
}

/// The bytes of the first `n` fields of the record: each field behind the
/// one before it, after as many zero bytes as bring it to its offset.
pub open spec fn laid_out(fields: RawFields, shared: SharedFields, n: nat) -> Seq<u8>
    decreases n,
{
    if n == 0 {
        Seq::empty()
    } else {
        let k = (n - 1) as nat;
        let before = laid_out(fields, shared, k);
        let field = field_order(fields.arch)[k as int];
        before + zeros((offset_at(fields.arch, k) - before.len()) as nat) + le_bytes(
            field_value(fields, shared, field),
            field.spec_size(fields.arch),
        )
    }
}

/// The bytes of the record: its fields, and zero bytes up to its size.
pub open spec fn record_bytes(fields: RawFields, shared: SharedFields) -> Seq<u8> {
    let body = laid_out(fields, shared, field_order(fields.arch).len());
    body + zeros((spec_record_size(fields.arch) - body.len()) as nat)
}

/// The bytes of the first `n` fields end where the last of them ends.
pub proof fn lemma_laid_out_len(fields: RawFields, shared: SharedFields, n: nat)
    requires
        0 < n <= field_order(fields.arch).len(),
    ensures
        laid_out(fields, shared, n).len() == end_at(fields.arch, (n - 1) as nat),
    decreases n,
{
    let k = (n - 1) as nat;
    let field = field_order(fields.arch)[k as int];
    lemma_le_bytes_len(field_value(fields, shared, field), field.spec_size(fields.arch));
    lemma_naturally_aligned(fields.arch, k);
    let before = laid_out(fields, shared, k);
    if k > 0 {
        lemma_laid_out_len(fields, shared, k);
    }
    assert(before.len() <= offset_at(fields.arch, k));
    assert(zeros((offset_at(fields.arch, k) - before.len()) as nat).len() == offset_at(
        fields.arch,
        k,
    ) - before.len());
}

/// The number that four bytes stand for.
fn array_number(bytes: &[u8; 4]) -> (value: u64)
    ensures
        value == le_value(bytes@),
{
    proof {
        let s0 = bytes@;
        let s1 = s0.skip(1);
        let s2 = s1.skip(1);
        let s3 = s2.skip(1);
        assert(le_value(s3.skip(1)) == 0);
        assert(le_value(s3) == s3[0]);
        assert(le_value(s2) == s2[0] + 0x100 * le_value(s3));
        assert(le_value(s1) == s1[0] + 0x100 * le_value(s2));
        assert(le_value(s0) == s0[0] + 0x100 * le_value(s1));
    }
    bytes[0] as u64 + 0x100 * (bytes[1] as u64 + 0x100 * (bytes[2] as u64 + 0x100 * (
    bytes[3] as u64)))
}

/// The number that a field of the record holds.
fn value_of(fields: &RawFields, shared: SharedFields, field: Field) -> (value: u64)
    ensures
        value == field_value(*fields, shared, field),
{
    match field {
        Field::MagicNumber => fields.magic_number as u64,
        Field::Version => fields.version as u64,
        Field::Base => fields.base,
        Field::RamStart => fields.ram_start,
        Field::Limit => fields.limit,
        Field::ImageSize => fields.image_size,
        Field::TlsStart => fields.tls_start,
        Field::TlsFilesz => fields.tls_filesz,
        Field::TlsMemsz => fields.tls_memsz,
        Field::TlsAlign => fields.tls_align,
        Field::CurrentStackAddress => shared.current_stack_address,
        Field::CurrentPercoreAddress => fields.current_percore_address,
        Field::HostLogicalAddr => fields.host_logical_addr,
        Field::BootGtod => fields.boot_gtod,
        Field::MbInfo => fields.mb_info,
        Field::Cmdline => fields.cmdline,
        Field::Cmdsize => fields.cmdsize,
        Field::CpuFreq => fields.cpu_freq as u64,
        Field::BootProcessor => fields.boot_processor as u64,
        Field::CpuOnline => shared.cpu_online as u64,
        Field::PossibleCpus => fields.possible_cpus as u64,
        Field::CurrentBootId => fields.current_boot_id as u64,
        Field::Uartport => fields.uartport as u64,
        Field::SingleKernel => fields.single_kernel as u64,
        Field::Uhyve => fields.uhyve as u64,
        Field::Hcip => array_number(&fields.hcip),
        Field::Hcgateway => array_number(&fields.hcgateway),
        Field::Hcmask => array_number(&fields.hcmask),
    }
}

/// Writes the record out as the bytes that loader and kernel share.
pub fn to_bytes(fields: &RawFields, shared: SharedFields) -> (bytes: Vec<u8>)
    ensures
        bytes@ == record_bytes(*fields, shared),
        bytes@.len() == spec_record_size(fields.arch),
{
    let arch = fields.arch;
    let order = order_of(arch);
    let mut bytes: Vec<u8> = Vec::new();
    let mut k: usize = 0;
    while k < FIELD_COUNT
        invariant
            k <= FIELD_COUNT,
            arch == fields.arch,
            order@ == field_order(arch),
            bytes@ == laid_out(*fields, shared, k as nat),
        decreases FIELD_COUNT - k,
    {
        proof {
            if k > 0 {
                lemma_laid_out_len(*fields, shared, k as nat);
            }
            lemma_naturally_aligned(arch, k as nat);
        }
        let at: usize = offset_of_place(arch, &order, k);
        push_zeros(&mut bytes, at);
        push_le(&mut bytes, value_of(fields, shared, order[k]), order[k].size(arch));
        k = k + 1;
    }
    proof {
        lemma_laid_out_len(*fields, shared, FIELD_COUNT as nat);
        lemma_aligned_up(end_at(arch, (FIELD_COUNT - 1) as nat), RECORD_ALIGN as nat);
    }
    push_zeros(&mut bytes, record_size(arch));
    bytes
}

/// The number that the bytes of a record hold in a field, or zero where the
/// architecture has no such field.
pub open spec fn read_field(arch: Arch, bytes: Seq<u8>, field: Field) -> nat {
    match spec_offset_of(arch, field) {
        Some(at) => le_value(bytes.subrange(at as int, at as int + field.spec_size(arch))),
        None => 0,
    }
}

/// The four bytes that the bytes of a record hold in a field.
pub open spec fn read_array(arch: Arch, bytes: Seq<u8>, field: Field) -> [u8; 4] {
    match spec_offset_of(arch, field) {
        Some(at) => [bytes[at as int], bytes[at as int + 1], bytes[at as int + 2], bytes[at as int + 3]],
        None => [0u8, 0u8, 0u8, 0u8],
    }
}

/// The fields that never change, as the bytes of a record hold them.
pub open spec fn fields_read(arch: Arch, bytes: Seq<u8>) -> RawFields {
    RawFields {
        arch,
        magic_number: read_field(arch, bytes, Field::MagicNumber) as u32,
        version: read_field(arch, bytes, Field::Version) as u32,
        base: read_field(arch, bytes, Field::Base) as u64,
        ram_start: read_field(arch, bytes, Field::RamStart) as u64,
        limit: read_field(arch, bytes, Field::Limit) as u64,
        image_size: read_field(arch, bytes, Field::ImageSize) as u64,
        tls_start: read_field(arch, bytes, Field::TlsStart) as u64,
        tls_filesz: read_field(arch, bytes, Field::TlsFilesz) as u64,
        tls_memsz: read_field(arch, bytes, Field::TlsMemsz) as u64,
        tls_align: read_field(arch, bytes, Field::TlsAlign) as u64,
        current_percore_address: read_field(arch, bytes, Field::CurrentPercoreAddress) as u64,
        host_logical_addr: read_field(arch, bytes, Field::HostLogicalAddr) as u64,
        boot_gtod: read_field(arch, bytes, Field::BootGtod) as u64,
        mb_info: read_field(arch, bytes, Field::MbInfo) as u64,
        cmdline: read_field(arch, bytes, Field::Cmdline) as u64,
        cmdsize: read_field(arch, bytes, Field::Cmdsize) as u64,
        cpu_freq: read_field(arch, bytes, Field::CpuFreq) as u32,
        boot_processor: read_field(arch, bytes, Field::BootProcessor) as u32,
        possible_cpus: read_field(arch, bytes, Field::PossibleCpus) as u32,
        current_boot_id: read_field(arch, bytes, Field::CurrentBootId) as u32,
        uartport: read_field(arch, bytes, Field::Uartport) as u32,
        single_kernel: read_field(arch, bytes, Field::SingleKernel) as u8,
        uhyve: read_field(arch, bytes, Field::Uhyve) as u8,
        hcip: read_array(arch, bytes, Field::Hcip),
        hcgateway: read_array(arch, bytes, Field::Hcgateway),
        hcmask: read_array(arch, bytes, Field::Hcmask),
    }
}

/// The two fields that change, as the bytes of a record hold them.
pub open spec fn shared_read(arch: Arch, bytes: Seq<u8>) -> SharedFields {
    SharedFields {
        current_stack_address: read_field(arch, bytes, Field::CurrentStackAddress) as u64,
        cpu_online: read_field(arch, bytes, Field::CpuOnline) as u32,
    }
}

/// What bytes hold as a record of an architecture: nothing where they are
/// fewer than the record takes or hold a CPU frequency beyond 16 bits, and
/// the value of every field otherwise.
pub open spec fn record_read(arch: Arch, bytes: Seq<u8>) -> Option<(RawFields, SharedFields)> {
    if bytes.len() < spec_record_size(arch) || !fields_read(arch, bytes).well_formed() {
        None
    } else {
        Some((fields_read(arch, bytes), shared_read(arch, bytes)))
    }
}

/// Reads the number that the bytes of a record hold in a field.
fn read(arch: Arch, bytes: &[u8], field: Field) -> (value: u64)
    requires
        bytes@.len() >= spec_record_size(arch),
    ensures
        value == read_field(arch, bytes@, field),
        value < radix(field.spec_size(arch)),
{
    proof {
        lemma_radix_positive(field.spec_size(arch));
    }
    match offset_of(arch, field) {
        Some(at) => {
            proof {
                lemma_field_within_record(arch, field);
                lemma_le_value_bounded(bytes@.subrange(at as int, at + field.spec_size(arch)));
            }
            read_le(bytes, at, field.size(arch))
        },
        None => 0,
    }
}

/// Reads the four bytes that the bytes of a record hold in a field.
fn read_four(arch: Arch, bytes: &[u8], field: Field) -> (value: [u8; 4])
    requires
        bytes@.len() >= spec_record_size(arch),
        field.spec_size(arch) == 4,
    ensures
        value == read_array(arch, bytes@, field),
{
    match offset_of(arch, field) {
        Some(at) => {
            proof {
                lemma_field_within_record(arch, field);
            }
            let value: [u8; 4] = [bytes[at], bytes[at + 1], bytes[at + 2], bytes[at + 3]];
            assert(value =~= read_array(arch, bytes@, field));
            value
        },
        None => {
            let value: [u8; 4] = [0, 0, 0, 0];
            assert(value =~= read_array(arch, bytes@, field));
            value
        },
    }
}

/// Reads a record of an architecture out of the bytes that loader and kernel
/// share. Bytes behind the record are passed over.
pub fn from_bytes(arch: Arch, bytes: &[u8]) -> (record: Option<(RawFields, SharedFields)>)
    ensures
        record == record_read(arch, bytes@),
{
    if bytes.len() < record_size(arch) {
        return None;
    }
    proof {
        lemma_radix_values();
    }
    let fields = RawFields {
        arch,
        magic_number: read(arch, bytes, Field::MagicNumber) as u32,
        version: read(arch, bytes, Field::Version) as u32,
        base: read(arch, bytes, Field::Base),
        ram_start: read(arch, bytes, Field::RamStart),
        limit: read(arch, bytes, Field::Limit),
        image_size: read(arch, bytes, Field::ImageSize),
        tls_start: read(arch, bytes, Field::TlsStart),
        tls_filesz: read(arch, bytes, Field::TlsFilesz),
        tls_memsz: read(arch, bytes, Field::TlsMemsz),
        tls_align: read(arch, bytes, Field::TlsAlign),
        current_percore_address: read(arch, bytes, Field::CurrentPercoreAddress),
        host_logical_addr: read(arch, bytes, Field::HostLogicalAddr),
        boot_gtod: read(arch, bytes, Field::BootGtod),
        mb_info: read(arch, bytes, Field::MbInfo),
        cmdline: read(arch, bytes, Field::Cmdline),
        cmdsize: read(arch, bytes, Field::Cmdsize),
        cpu_freq: read(arch, bytes, Field::CpuFreq) as u32,
        boot_processor: read(arch, bytes, Field::BootProcessor) as u32,
        possible_cpus: read(arch, bytes, Field::PossibleCpus) as u32,
        current_boot_id: read(arch, bytes, Field::CurrentBootId) as u32,
        uartport: read(arch, bytes, Field::Uartport) as u32,
        single_kernel: read(arch, bytes, Field::SingleKernel) as u8,
        uhyve: read(arch, bytes, Field::Uhyve) as u8,
        hcip: read_four(arch, bytes, Field::Hcip),
        hcgateway: read_four(arch, bytes, Field::Hcgateway),
        hcmask: read_four(arch, bytes, Field::Hcmask),
    };
    let shared = SharedFields {
        current_stack_address: read(arch, bytes, Field::CurrentStackAddress),
        cpu_online: read(arch, bytes, Field::CpuOnline) as u32,
    };
    if fields.is_well_formed() {
        Some((fields, shared))
    } else {
        None
    }
}

/// The bytes of the first `n` fields start with the bytes of the first `m`
/// of them.
pub proof fn lemma_laid_out_prefix(fields: RawFields, shared: SharedFields, m: nat, n: nat)
    requires
        m <= n <= field_order(fields.arch).len(),
    ensures
        laid_out(fields, shared, m).len() <= laid_out(fields, shared, n).len(),
        laid_out(fields, shared, n).subrange(0, laid_out(fields, shared, m).len() as int)
            == laid_out(fields, shared, m),
    decreases n - m,
{
    let short = laid_out(fields, shared, m);
    let long = laid_out(fields, shared, n);
    if m < n {
        let before = laid_out(fields, shared, (n - 1) as nat);
        lemma_laid_out_prefix(fields, shared, m, (n - 1) as nat);
        assert(long.subrange(0, before.len() as int) =~= before);
        assert(long.subrange(0, short.len() as int) =~= before.subrange(0, short.len() as int));
    } else {
        assert(long.subrange(0, short.len() as int) =~= short);
    }
}

/// In the bytes of a record, the bytes from a field's offset to its end are
/// the bytes of the number that the field holds.
pub proof fn lemma_field_bytes(fields: RawFields, shared: SharedFields, k: nat)
    requires
        k < field_order(fields.arch).len(),
    ensures
        end_at(fields.arch, k) <= record_bytes(fields, shared).len(),
        record_bytes(fields, shared).subrange(
            offset_at(fields.arch, k) as int,
            end_at(fields.arch, k) as int,
        ) == le_bytes(
            field_value(fields, shared, field_order(fields.arch)[k as int]),
            field_order(fields.arch)[k as int].spec_size(fields.arch),
        ),
{
    let arch = fields.arch;
    let field = field_order(arch)[k as int];
    let bytes = record_bytes(fields, shared);
    let body = laid_out(fields, shared, FIELD_COUNT as nat);
    let upto = laid_out(fields, shared, k + 1);
    let before = laid_out(fields, shared, k);
    let written = le_bytes(field_value(fields, shared, field), field.spec_size(arch));
    lemma_le_bytes_len(field_value(fields, shared, field), field.spec_size(arch));
    lemma_laid_out_len(fields, shared, k + 1);
    lemma_naturally_aligned(arch, k);
    if k > 0 {
        lemma_laid_out_len(fields, shared, k);
    }
    assert(upto.subrange(offset_at(arch, k) as int, end_at(arch, k) as int) =~= written);
    lemma_laid_out_prefix(fields, shared, k + 1, FIELD_COUNT as nat);
    assert(bytes.subrange(0, body.len() as int) =~= body);
    assert(bytes.subrange(offset_at(arch, k) as int, end_at(arch, k) as int) =~= upto.subrange(
        offset_at(arch, k) as int,
        end_at(arch, k) as int,
    )) by {
        assert forall|i: int| 0 <= i < end_at(arch, k) implies bytes[i] == upto[i] by {
            assert(bytes[i] == bytes.subrange(0, body.len() as int)[i]);
            assert(body[i] == body.subrange(0, upto.len() as int)[i]);
        }
    }
}

/// What is read back from the bytes of a record in a field that the
/// architecture has is the number that the field holds, as far as it fits in
/// the field.
pub proof fn lemma_read_back(fields: RawFields, shared: SharedFields, field: Field)
    requires
        spec_offset_of(fields.arch, field) is Some,
    ensures
        read_field(fields.arch, record_bytes(fields, shared), field) == field_value(
            fields,
            shared,
            field,
        ) % radix(field.spec_size(fields.arch)),
{
    let order = field_order(fields.arch);
    lemma_place_is_field(order, field);
    let k = place_in(order, field)->0;
    lemma_field_bytes(fields, shared, k);
    lemma_le_round_trip(field_value(fields, shared, field), field.spec_size(fields.arch));
}

/// The four bytes that are read back from the bytes of a record in one of
/// its addresses of four bytes are those of the address.
pub proof fn lemma_read_array_back(
    fields: RawFields,
    shared: SharedFields,
    field: Field,
    address: [u8; 4],
)
    requires
        spec_offset_of(fields.arch, field) is Some,
        field.spec_size(fields.arch) == 4,
        field_value(fields, shared, field) == le_value(address@),
    ensures
        read_array(fields.arch, record_bytes(fields, shared), field) == address,
{
    let order = field_order(fields.arch);
    lemma_place_is_field(order, field);
    let k = place_in(order, field)->0;
    lemma_field_bytes(fields, shared, k);
    lemma_le_bytes_of_value(address@);
    let bytes = record_bytes(fields, shared);
    let at = offset_at(fields.arch, k) as int;
    let part = bytes.subrange(at, at + 4);
    assert(part == address@);
    assert(bytes[at] == part[0] && bytes[at + 1] == part[1] && bytes[at + 2] == part[2] && bytes[at
        + 3] == part[3]);
    assert(read_array(fields.arch, bytes, field) =~= address);
}

/// In a well-formed record every number fits in its field, and a field that
/// the architecture lacks holds zero.
pub proof fn lemma_value_fits(fields: RawFields, shared: SharedFields, field: Field)
    requires
        fields.well_formed(),
    ensures
        has_field(fields.arch, field) ==> field_value(fields, shared, field) < radix(
            field.spec_size(fields.arch),
        ),
        !has_field(fields.arch, field) ==> field_value(fields, shared, field) == 0,
{
    lemma_radix_values();
    lemma_le_value_bounded(fields.hcip@);
    lemma_le_value_bounded(fields.hcgateway@);
    lemma_le_value_bounded(fields.hcmask@);
}

/// What is read back from the bytes of a well-formed record in a field is
/// the number that the field holds.
pub proof fn lemma_read_back_exact(fields: RawFields, shared: SharedFields, field: Field)
    requires
        fields.well_formed(),
    ensures
        read_field(fields.arch, record_bytes(fields, shared), field) == field_value(
            fields,
            shared,
            field,
        ),
{
    lemma_offset_where_present(fields.arch, field);
    lemma_value_fits(fields, shared, field);
    if has_field(fields.arch, field) {
        lemma_read_back(fields, shared, field);
        lemma_radix_positive(field.spec_size(fields.arch));
        lemma_small_mod(field_value(fields, shared, field), radix(field.spec_size(fields.arch)));
    }
}

/// The fields that never change are read back from the bytes of a
/// well-formed record as they were.
proof fn lemma_fields_read_back(fields: RawFields, shared: SharedFields)
    requires
        fields.well_formed(),
    ensures
        fields_read(fields.arch, record_bytes(fields, shared)) == fields,
{
    let arch = fields.arch;
    let bytes = record_bytes(fields, shared);
    lemma_read_back_exact(fields, shared, Field::MagicNumber);
    lemma_read_back_exact(fields, shared, Field::Version);
    lemma_read_back_exact(fields, shared, Field::Base);
    lemma_read_back_exact(fields, shared, Field::RamStart);
    lemma_read_back_exact(fields, shared, Field::Limit);
    lemma_read_back_exact(fields, shared, Field::ImageSize);
    lemma_read_back_exact(fields, shared, Field::TlsStart);
    lemma_read_back_exact(fields, shared, Field::TlsFilesz);
    lemma_read_back_exact(fields, shared, Field::TlsMemsz);
    lemma_read_back_exact(fields, shared, Field::TlsAlign);
    lemma_read_back_exact(fields, shared, Field::CurrentPercoreAddress);
    lemma_read_back_exact(fields, shared, Field::HostLogicalAddr);
    lemma_read_back_exact(fields, shared, Field::BootGtod);
    lemma_read_back_exact(fields, shared, Field::MbInfo);
    lemma_read_back_exact(fields, shared, Field::Cmdline);
    lemma_read_back_exact(fields, shared, Field::Cmdsize);
    lemma_read_back_exact(fields, shared, Field::CpuFreq);
    lemma_read_back_exact(fields, shared, Field::BootProcessor);
    lemma_read_back_exact(fields, shared, Field::PossibleCpus);
    lemma_read_back_exact(fields, shared, Field::CurrentBootId);
    lemma_read_back_exact(fields, shared, Field::Uartport);
    lemma_read_back_exact(fields, shared, Field::SingleKernel);
    lemma_read_back_exact(fields, shared, Field::Uhyve);
    lemma_offset_where_present(arch, Field::Hcip);
    lemma_offset_where_present(arch, Field::Hcgateway);
    lemma_offset_where_present(arch, Field::Hcmask);
    lemma_read_array_back(fields, shared, Field::Hcip, fields.hcip);
    lemma_read_array_back(fields, shared, Field::Hcgateway, fields.hcgateway);
    lemma_read_array_back(fields, shared, Field::Hcmask, fields.hcmask);
}

/// The two fields that change are read back from the bytes of a well-formed
/// record as they were.
proof fn lemma_shared_read_back(fields: RawFields, shared: SharedFields)
    requires
        fields.well_formed(),
    ensures
        shared_read(fields.arch, record_bytes(fields, shared)) == shared,
{
    lemma_read_back_exact(fields, shared, Field::CurrentStackAddress);
    lemma_read_back_exact(fields, shared, Field::CpuOnline);
}

/// The bytes of a record are as many as the record takes.
pub proof fn lemma_record_bytes_len(fields: RawFields, shared: SharedFields)
    ensures
        record_bytes(fields, shared).len() == spec_record_size(fields.arch),
{
    lemma_laid_out_len(fields, shared, FIELD_COUNT as nat);
    lemma_aligned_up(end_at(fields.arch, (FIELD_COUNT - 1) as nat), RECORD_ALIGN as nat);
}

/// A record that was written out as bytes is read back from them as it was:
/// every field that never changes, and the two that do.
pub proof fn lemma_bytes_round_trip(fields: RawFields, shared: SharedFields)
    requires
        fields.well_formed(),
    ensures
        record_read(fields.arch, record_bytes(fields, shared)) == Some((fields, shared)),
{
    lemma_record_bytes_len(fields, shared);
    lemma_fields_read_back(fields, shared);
    lemma_shared_read_back(fields, shared);
}

} // verus!
