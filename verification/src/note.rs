//! The entry version note: a metadata note in the kernel image that names the
//! version of the boot protocol which the kernel was built for.
//!
//! A note is three little-endian words (the size of the name, the size of the
//! descriptor and the type), then the name and the descriptor, each padded
//! with zero bytes to a multiple of four.

use vstd::prelude::*;

verus! {

/// The type of the entry version note.
pub const NT_HERMIT_ENTRY_VERSION: u32 = 0x5a00;

/// The version of the boot protocol that this library speaks.
pub const HERMIT_ENTRY_VERSION: u8 = 1;

/// The number of bytes in an encoded entry version note.
pub const NOTE_LEN: usize = 24;

/// The number of bytes in a note's header.
pub const HEADER_LEN: usize = 12;

/// The name under which the note stands: the ASCII letters `HERMIT`.
pub open spec fn note_name() -> Seq<u8> {
    seq![0x48u8, 0x45u8, 0x52u8, 0x4du8, 0x49u8, 0x54u8]
}

/// The little-endian word that starts at `at`.
pub open spec fn word_at(image: Seq<u8>, at: int) -> int {
    image[at] + 0x100 * image[at + 1] + 0x1_0000 * image[at + 2] + 0x100_0000 * image[at + 3]
}

/// `n` rounded up to a multiple of four.
pub open spec fn padded(n: int) -> int {
    if n % 4 == 0 {
        n
    } else {
        n + 4 - n % 4
    }
}

/// The size of the name of the note that starts at `at`.
pub open spec fn name_size(image: Seq<u8>, at: int) -> int {
    word_at(image, at)
}

/// The size of the descriptor of the note that starts at `at`.
pub open spec fn desc_size(image: Seq<u8>, at: int) -> int {
    word_at(image, at + 4)
}

/// The type of the note that starts at `at`.
pub open spec fn note_type(image: Seq<u8>, at: int) -> int {
    word_at(image, at + 8)
}

/// Where the name of the note at `at` starts.
pub open spec fn name_start(at: int) -> int {
    at + HEADER_LEN
}

/// Where the descriptor of the note at `at` starts.
pub open spec fn desc_start(image: Seq<u8>, at: int) -> int {
    name_start(at) + padded(name_size(image, at))
}

/// Where the note that follows the note at `at` starts.
pub open spec fn next_note(image: Seq<u8>, at: int) -> int {
    desc_start(image, at) + padded(desc_size(image, at))
}

/// The image holds the header, the name and the descriptor of a note at `at`.
pub open spec fn holds_note(image: Seq<u8>, at: int) -> bool {
    &&& 0 <= at
    &&& at + HEADER_LEN <= image.len()
    &&& desc_start(image, at) + desc_size(image, at) <= image.len()
}

/// The name of the note at `at` is `HERMIT`, followed by zero bytes only.
pub open spec fn name_matches(image: Seq<u8>, at: int) -> bool {
    &&& name_size(image, at) >= note_name().len()
    &&& forall|i: int|
        0 <= i < name_size(image, at) ==> #[trigger] image[name_start(at) + i] == (if i
            < note_name().len() {
            note_name()[i]
        } else {
            0u8
        })
}

/// The note at `at` is an entry version note: it has the name, the type and
/// a descriptor of at least one byte.
pub open spec fn is_entry_note(image: Seq<u8>, at: int) -> bool {
    &&& note_type(image, at) == NT_HERMIT_ENTRY_VERSION
    &&& desc_size(image, at) >= 1
    &&& name_matches(image, at)
}

/// The version in the first entry version note at or after `at`, where the
/// notes from `at` on are read one after the other until the image ends or
/// cuts one short.
pub open spec fn scan(image: Seq<u8>, at: int) -> Option<u8>
    decreases image.len() - at,
{
    if !holds_note(image, at) {
        None
    } else if is_entry_note(image, at) {
        Some(image[desc_start(image, at)])
    } else if next_note(image, at) < image.len() {
        scan(image, next_note(image, at))
    } else {
        None
    }
}

/// The version that an image's notes declare, if they declare one.
pub open spec fn decoded(image: Seq<u8>) -> Option<u8> {
    scan(image, 0)
}

/// The bytes of the entry version note for `version`.
pub open spec fn encoded(version: u8) -> Seq<u8> {
    seq![
        7u8, 0u8, 0u8, 0u8,
        1u8, 0u8, 0u8, 0u8,
        0x00u8, 0x5au8, 0u8, 0u8,
        0x48u8, 0x45u8, 0x52u8, 0x4du8,
        0x49u8, 0x54u8, 0u8, 0u8,
        version, 0u8, 0u8, 0u8,
    ]
}

/// Encodes the entry version note for `version`.
pub fn encode(version: u8) -> (note: [u8; NOTE_LEN])
    ensures
        note@ == encoded(version),
{
    let note: [u8; NOTE_LEN] = [
        7, 0, 0, 0,
        1, 0, 0, 0,
        0x00, 0x5a, 0, 0,
        0x48, 0x45, 0x52, 0x4d,
        0x49, 0x54, 0, 0,
        version, 0, 0, 0,
    ];
    assert(note@ =~= encoded(version));
    note
}

/// Reads the little-endian word that starts at `at`.
fn read_word(image: &[u8], at: usize) -> (word: u32)
    requires
        at + 4 <= image@.len(),
    ensures
        word == word_at(image@, at as int),
{
    let b0: u32 = image[at] as u32;
    let b1: u32 = image[at + 1] as u32;
    let b2: u32 = image[at + 2] as u32;
    let b3: u32 = image[at + 3] as u32;
    b0 + 0x100 * b1 + 0x1_0000 * b2 + 0x100_0000 * b3
}

/// Rounds a size up to a multiple of four.
fn pad(n: u32) -> (p: u64)
    ensures
        p == padded(n as int),
{
    let n: u64 = n as u64;
    if n % 4 == 0 {
        n
    } else {
        n + 4 - n % 4
    }
}

/// Tells whether the name of the note at `at`, whose size is `size`, is
/// `HERMIT` followed by zero bytes only.
fn name_is_hermit(image: &[u8], at: usize, size: usize) -> (b: bool)
    requires
        at + HEADER_LEN + size <= image@.len(),
        size == name_size(image@, at as int),
    ensures
        b == name_matches(image@, at as int),
{
    let name: [u8; 6] = [0x48, 0x45, 0x52, 0x4d, 0x49, 0x54];
    assert(name@ =~= note_name());
    let len: usize = image.len();
    if size < 6 {
        return false;
    }
    let start: usize = at + HEADER_LEN;
    let mut i: usize = 0;
    while i < size
        invariant
            i <= size,
            start == name_start(at as int),
            start + size <= len,
            len == image@.len(),
            size == name_size(image@, at as int),
            name@ == note_name(),
            forall|j: int|
                0 <= j < i ==> #[trigger] image@[name_start(at as int) + j] == (if j
                    < note_name().len() {
                    note_name()[j]
                } else {
                    0u8
                }),
        decreases size - i,
    {
        let expected: u8 = if i < 6 {
            name[i]
        } else {
            0
        };
        if image[start + i] != expected {
            assert(image@[name_start(at as int) + i] != (if (i as int) < note_name().len() {
                note_name()[i as int]
            } else {
                0u8
            }));
            return false;
        }
        i = i + 1;
    }
    true
}

/// Reads the notes of `image` one after the other and returns the version in
/// the first entry version note, or `None` where the image holds none.
pub fn decode(image: &[u8]) -> (version: Option<u8>)
    ensures
        version == decoded(image@),
{
    let len: usize = image.len();
    let mut at: usize = 0;
    loop
        invariant
            len == image@.len(),
            at <= len,
            scan(image@, at as int) == decoded(image@),
        decreases len - at,
    {
        if len - at < HEADER_LEN {
            return None;
        }
        let name_size: u32 = read_word(image, at);
        let desc_size: u32 = read_word(image, at + 4);
        let note_type: u32 = read_word(image, at + 8);
        let rest: u64 = (len - at - HEADER_LEN) as u64;
        let name_len: u64 = pad(name_size);
        if name_len + desc_size as u64 > rest {
            return None;
        }
        let desc_at: usize = at + HEADER_LEN + name_len as usize;
        if note_type == NT_HERMIT_ENTRY_VERSION && desc_size >= 1 && name_is_hermit(
            image,
            at,
            name_size as usize,
        ) {
            return Some(image[desc_at]);
        }
        let body_len: u64 = name_len + pad(desc_size);
        if body_len >= rest {
            return None;
        }
        at = at + HEADER_LEN + body_len as usize;
    }
}

/// Where the notes of `image` start, from the note at `at` on, in the order
/// in which they stand.
pub open spec fn note_offsets(image: Seq<u8>, at: int) -> Seq<int>
    decreases image.len() - at,
{
    if !holds_note(image, at) {
        Seq::empty()
    } else if next_note(image, at) < image.len() {
        seq![at] + note_offsets(image, next_note(image, at))
    } else {
        seq![at]
    }
}

/// The encoded note is one whole entry version note: it has the name, the
/// type, and a descriptor of one byte that holds the version, and ends with
/// its last byte.
pub proof fn lemma_encoded_is_entry_note(version: u8)
    ensures
        encoded(version).len() == NOTE_LEN,
        holds_note(encoded(version), 0),
        is_entry_note(encoded(version), 0),
        name_size(encoded(version), 0) == note_name().len() + 1,
        desc_size(encoded(version), 0) == 1,
        encoded(version)[desc_start(encoded(version), 0)] == version,
        next_note(encoded(version), 0) == NOTE_LEN,
{
    let image = encoded(version);
    assert(name_size(image, 0) == 7);
    assert(desc_size(image, 0) == 1);
    assert(note_type(image, 0) == NT_HERMIT_ENTRY_VERSION);
    assert(desc_start(image, 0) == 20);
    assert(name_matches(image, 0)) by {
        assert forall|i: int| 0 <= i < name_size(image, 0) implies #[trigger] image[name_start(0)
            + i] == (if i < note_name().len() {
            note_name()[i]
        } else {
            0u8
        }) by {
            assert(i == 0 || i == 1 || i == 2 || i == 3 || i == 4 || i == 5 || i == 6);
        }
    }
}

/// Decoding an encoded note gives back its version.
pub proof fn lemma_round_trip(version: u8)
    ensures
        decoded(encoded(version)) == Some(version),
{
    lemma_encoded_is_entry_note(version);
}

/// From `at` on, an image whose notes hold no entry version note declares no
/// version.
pub proof fn lemma_scan_none(image: Seq<u8>, at: int)
    requires
        forall|k: int|
            0 <= k < note_offsets(image, at).len() ==> !is_entry_note(
                image,
                #[trigger] note_offsets(image, at)[k],
            ),
    ensures
        scan(image, at) is None,
    decreases image.len() - at,
{
    if holds_note(image, at) {
        let offsets = note_offsets(image, at);
        assert(offsets[0] == at);
        if next_note(image, at) < image.len() {
            let next = next_note(image, at);
            let rest = note_offsets(image, next);
            assert forall|k: int| 0 <= k < rest.len() implies !is_entry_note(
                image,
                #[trigger] rest[k],
            ) by {
                assert(offsets[k + 1] == rest[k]);
            }
            lemma_scan_none(image, next);
        }
    }
}

/// An image whose notes hold no entry version note declares no version.
pub proof fn lemma_absent(image: Seq<u8>)
    requires
        forall|k: int|
            0 <= k < note_offsets(image, 0).len() ==> !is_entry_note(
                image,
                #[trigger] note_offsets(image, 0)[k],
            ),
    ensures
        decoded(image) is None,
{
    lemma_scan_none(image, 0);
}

/// From `at` on, the version that an image declares is the first byte of the
/// descriptor of the first of its notes that is an entry version note.
pub proof fn lemma_scan_first(image: Seq<u8>, at: int, k: int)
    requires
        0 <= k < note_offsets(image, at).len(),
        is_entry_note(image, note_offsets(image, at)[k]),
        forall|j: int| 0 <= j < k ==> !is_entry_note(image, #[trigger] note_offsets(image, at)[j]),
    ensures
        scan(image, at) == Some(image[desc_start(image, note_offsets(image, at)[k])]),
    decreases k,
{
    let offsets = note_offsets(image, at);
    assert(holds_note(image, at));
    assert(offsets[0] == at);
    if k > 0 {
        let next = next_note(image, at);
        let rest = note_offsets(image, next);
        assert(offsets == seq![at] + rest);
        assert(offsets[k] == rest[k - 1]);
        assert forall|j: int| 0 <= j < k - 1 implies !is_entry_note(image, #[trigger] rest[j]) by {
            assert(offsets[j + 1] == rest[j]);
        }
        lemma_scan_first(image, next, k - 1);
    }
}

/// The version that an image declares is the first byte of the descriptor of
/// the first of its notes that is an entry version note.
pub proof fn lemma_first_entry_note(image: Seq<u8>, k: int)
    requires
        0 <= k < note_offsets(image, 0).len(),
        is_entry_note(image, note_offsets(image, 0)[k]),
        forall|j: int| 0 <= j < k ==> !is_entry_note(image, #[trigger] note_offsets(image, 0)[j]),
    ensures
        decoded(image) == Some(image[desc_start(image, note_offsets(image, 0)[k])]),
{
    lemma_scan_first(image, 0, k);
}

/// From `at` on, the bytes are whole notes, one behind the other up to the
/// last byte, and none of them is an entry version note.
pub open spec fn other_notes(bytes: Seq<u8>, at: int) -> bool
    decreases bytes.len() - at,
{
    if at == bytes.len() {
        true
    } else {
        &&& holds_note(bytes, at)
        &&& !is_entry_note(bytes, at)
        &&& next_note(bytes, at) <= bytes.len()
        &&& other_notes(bytes, next_note(bytes, at))
    }
}

/// A note reads the same in an image and in a longer image that starts with
/// the first one, as long as the first one holds the note.
proof fn lemma_note_in_longer_image(part: Seq<u8>, image: Seq<u8>, at: int)
    requires
        part.len() <= image.len(),
        image.subrange(0, part.len() as int) == part,
        holds_note(part, at),
    ensures
        holds_note(image, at),
        next_note(image, at) == next_note(part, at),
        desc_start(image, at) == desc_start(part, at),
        is_entry_note(image, at) == is_entry_note(part, at),
{
    assert forall|i: int| 0 <= i < part.len() implies image[i] == part[i] by {
        assert(image.subrange(0, part.len() as int)[i] == image[i]);
    }
    assert(name_size(image, at) == name_size(part, at));
    assert(desc_size(image, at) == desc_size(part, at));
    assert(note_type(image, at) == note_type(part, at));
    if name_matches(part, at) {
        assert forall|i: int| 0 <= i < name_size(image, at) implies #[trigger] image[name_start(at)
            + i] == (if i < note_name().len() {
            note_name()[i]
        } else {
            0u8
        }) by {
            assert(image[name_start(at) + i] == part[name_start(at) + i]);
        }
    }
    if name_matches(image, at) {
        assert forall|i: int| 0 <= i < name_size(part, at) implies #[trigger] part[name_start(at)
            + i] == (if i < note_name().len() {
            note_name()[i]
        } else {
            0u8
        }) by {
            assert(image[name_start(at) + i] == part[name_start(at) + i]);
        }
    }
}

/// An image that holds the encoded note behind `before` bytes declares the
/// note's version from there on.
proof fn lemma_scan_at_encoded(image: Seq<u8>, before: int, version: u8)
    requires
        0 <= before,
        before + NOTE_LEN <= image.len(),
        image.subrange(before, before + NOTE_LEN) == encoded(version),
    ensures
        scan(image, before) == Some(version),
{
    let note = encoded(version);
    assert forall|i: int| 0 <= i < NOTE_LEN implies image[before + i] == note[i] by {
        assert(image.subrange(before, before + NOTE_LEN)[i] == image[before + i]);
    }
    assert(name_size(image, before) == 7) by {
        assert(image[before + 0] == note[0] && image[before + 1] == note[1] && image[before + 2]
            == note[2] && image[before + 3] == note[3]);
    }
    assert(desc_size(image, before) == 1) by {
        assert(image[before + 4] == note[4] && image[before + 5] == note[5] && image[before + 6]
            == note[6] && image[before + 7] == note[7]);
    }
    assert(note_type(image, before) == NT_HERMIT_ENTRY_VERSION) by {
        assert(image[before + 8] == note[8] && image[before + 9] == note[9] && image[before + 10]
            == note[10] && image[before + 11] == note[11]);
    }
    assert(desc_start(image, before) == before + 20);
    assert(image[before + 20] == note[20]);
    assert(name_matches(image, before)) by {
        assert forall|i: int| 0 <= i < name_size(image, before) implies #[trigger] image[name_start(
            before,
        ) + i] == (if i < note_name().len() {
            note_name()[i]
        } else {
            0u8
        }) by {
            assert(image[before + (12 + i)] == note[12 + i]);
        }
    }
}

/// Behind whole notes of other kinds, an image declares what it declares
/// from their end on.
proof fn lemma_scan_passes_other_notes(part: Seq<u8>, image: Seq<u8>, at: int)
    requires
        0 <= at <= part.len() < image.len(),
        image.subrange(0, part.len() as int) == part,
        other_notes(part, at),
    ensures
        scan(image, at) == scan(image, part.len() as int),
    decreases part.len() - at,
{
    if at < part.len() {
        lemma_note_in_longer_image(part, image, at);
        lemma_scan_passes_other_notes(part, image, next_note(part, at));
    }
}

/// The encoded note is found wherever it stands among the notes of an image:
/// behind any whole notes of other kinds, and whatever follows it.
pub proof fn lemma_found_among_notes(before: Seq<u8>, version: u8, after: Seq<u8>)
    requires
        other_notes(before, 0),
    ensures
        decoded(before + encoded(version) + after) == Some(version),
{
    let image = before + encoded(version) + after;
    assert(image.subrange(0, before.len() as int) =~= before);
    assert(image.subrange(before.len() as int, before.len() + NOTE_LEN) =~= encoded(version));
    lemma_scan_passes_other_notes(before, image, 0);
    lemma_scan_at_encoded(image, before.len() as int, version);
}

/// The layout that a loader writes the record in for a kernel.
#[derive(Clone, Copy, Debug, PartialEq, Eq, Structural)]
pub enum EntryVersion {
    /// The kernel declares no version: it is older than the note, and the
    /// loader falls back to the layout of those kernels.
    Legacy,
    /// The kernel declares the version that this library speaks.
    Current,
}

/// The kernel declares a version that this library does not speak. A loader
/// must not start such a kernel.
#[derive(Clone, Copy, Debug, PartialEq, Eq, Structural)]
pub struct VersionMismatch {
    /// The version that the kernel declares.
    pub found: u8,
}

/// What follows from the version that a kernel declares.
pub open spec fn negotiated(declared: Option<u8>) -> Result<EntryVersion, VersionMismatch> {
    match declared {
        None => Ok(EntryVersion::Legacy),
        Some(version) => if version == HERMIT_ENTRY_VERSION {
            Ok(EntryVersion::Current)
        } else {
            Err(VersionMismatch { found: version })
        },
    }
}

/// Decides from a kernel image's notes how the record for it is laid out:
/// as this library's version has it where the kernel declares that version,
/// as older kernels expect it where the kernel declares none. A kernel that
/// declares another version is refused.
pub fn negotiate(image: &[u8]) -> (outcome: Result<EntryVersion, VersionMismatch>)
    ensures
        outcome == negotiated(decoded(image@)),
{
    match decode(image) {
        None => Ok(EntryVersion::Legacy),
        Some(version) => if version == HERMIT_ENTRY_VERSION {
            Ok(EntryVersion::Current)
        } else {
            Err(VersionMismatch { found: version })
        },
    }
}

/// A kernel whose image holds the note that this library encodes for its own
/// version is accepted, and no other version is.
pub proof fn lemma_negotiate_encoded(version: u8)
    ensures
        negotiated(decoded(encoded(version))) is Ok <==> version == HERMIT_ENTRY_VERSION,
        version == HERMIT_ENTRY_VERSION ==> negotiated(decoded(encoded(version))) == Ok::<
            EntryVersion,
            VersionMismatch,
        >(EntryVersion::Current),
{
    lemma_round_trip(version);
}

} // verus!
