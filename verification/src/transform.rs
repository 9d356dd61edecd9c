//! Transform records and the payload that carries a snapshot of them.

use vstd::bytes::*;
use vstd::prelude::*;
use vstd::slice::slice_subrange;

verus! {

/// One transform of the scene: where an object is, how it is turned and how
/// it is scaled. Each component is held as the bit pattern of a 32-bit
/// float, so that a record is compared and encoded exactly.
#[derive(Debug, Clone, Copy, PartialEq, Eq)]
pub struct TransformRecord {
    /// Position: x, y, z.
    pub translation: [u32; 3],
    /// Rotation, a quaternion: x, y, z, w.
    pub rotation: [u32; 4],
    /// Scale: x, y, z.
    pub scale: [u32; 3],
}

/// The size of an encoded record: ten words of four bytes.
pub const RECORD_BYTES: usize = 40;

/// The size of the count that an encoding starts with.
pub const COUNT_BYTES: usize = 8;

/// The encoding of one record: its ten components in the order translation,
/// rotation, scale, each as four bytes, least significant byte first.
pub open spec fn record_encoding(record: TransformRecord) -> Seq<u8> {
    spec_u32_to_le_bytes(record.translation[0]) + spec_u32_to_le_bytes(record.translation[1])
        + spec_u32_to_le_bytes(record.translation[2]) + spec_u32_to_le_bytes(record.rotation[0])
        + spec_u32_to_le_bytes(record.rotation[1]) + spec_u32_to_le_bytes(record.rotation[2])
        + spec_u32_to_le_bytes(record.rotation[3]) + spec_u32_to_le_bytes(record.scale[0])
        + spec_u32_to_le_bytes(record.scale[1]) + spec_u32_to_le_bytes(record.scale[2])
}

/// The encodings of the records, one after the other.
pub open spec fn records_encoding(records: Seq<TransformRecord>) -> Seq<u8>
    decreases records.len(),
{
    if records.len() == 0 {
        Seq::empty()
    } else {
        records_encoding(records.drop_last()) + record_encoding(records.last())
    }
}

/// The payload for a snapshot: the number of records as eight bytes, least
/// significant byte first, and then the records.
pub open spec fn encoding(records: Seq<TransformRecord>) -> Seq<u8> {
    spec_u64_to_le_bytes(records.len() as u64) + records_encoding(records)
}

/// `bincode::ErrorKind`, which `bincode::serialize` returns, boxed, as its
/// error. Nothing is said of what it holds.
#[verifier::external_type_specification]
#[verifier::external_body]
pub struct ExBincodeErrorKind(bincode::ErrorKind);

/// `bincode::serialize`, on the records handed over as tuples of their three
/// arrays. With the options of that function a sequence is written as its
/// length in eight bytes and then its items, a tuple or an array as its items
/// with nothing around them, and a `u32` as four bytes, all least significant
/// byte first. The call returns `Ok`: these options set no size limit, a
/// `Vec` knows its length, and writing into a `Vec<u8>` does not fail.
#[verifier::external_body]
fn bincode_serialize(records: &Vec<TransformRecord>) -> (out: Result<Vec<u8>, bincode::Error>)
    ensures
        out is Ok,
        out matches Ok(bytes) ==> bytes@ == encoding(records@),
{
    let plain: Vec<([u32; 3], [u32; 4], [u32; 3])> = records.iter().map(
        |r| (r.translation, r.rotation, r.scale),
    ).collect();
    bincode::serialize(&plain)
}

/// Turns a snapshot into the payload that goes on the wire.
pub fn serialize(records: &Vec<TransformRecord>) -> (payload: Vec<u8>)
    ensures
        payload@ == encoding(records@),
{
    match bincode_serialize(records) {
        Ok(bytes) => bytes,
        Err(_) => unreached(),
    }
}

/// Whether `out` is the result of decoding `bytes`: the snapshot that `bytes`
/// is the payload of, or nothing where `bytes` is the payload of no snapshot.
pub open spec fn decodes_to(bytes: Seq<u8>, out: Option<Seq<TransformRecord>>) -> bool {
    match out {
        Some(records) => records.len() <= u64::MAX && encoding(records) == bytes,
        None => forall|records: Seq<TransformRecord>|
            records.len() <= u64::MAX ==> #[trigger] encoding(records) != bytes,
    }
}

/// An encoded record takes `RECORD_BYTES` bytes, and each component stands in
/// it at four times its number.
pub proof fn lemma_record_encoding(record: TransformRecord)
    ensures
        record_encoding(record).len() == RECORD_BYTES,
        record_encoding(record).subrange(0, 4) == spec_u32_to_le_bytes(record.translation[0]),
        record_encoding(record).subrange(4, 8) == spec_u32_to_le_bytes(record.translation[1]),
        record_encoding(record).subrange(8, 12) == spec_u32_to_le_bytes(record.translation[2]),
        record_encoding(record).subrange(12, 16) == spec_u32_to_le_bytes(record.rotation[0]),
        record_encoding(record).subrange(16, 20) == spec_u32_to_le_bytes(record.rotation[1]),
        record_encoding(record).subrange(20, 24) == spec_u32_to_le_bytes(record.rotation[2]),
        record_encoding(record).subrange(24, 28) == spec_u32_to_le_bytes(record.rotation[3]),
        record_encoding(record).subrange(28, 32) == spec_u32_to_le_bytes(record.scale[0]),
        record_encoding(record).subrange(32, 36) == spec_u32_to_le_bytes(record.scale[1]),
        record_encoding(record).subrange(36, 40) == spec_u32_to_le_bytes(record.scale[2]),
{
    lemma_auto_spec_u32_to_from_le_bytes();
    let e = record_encoding(record);
    assert(e.subrange(0, 4) =~= spec_u32_to_le_bytes(record.translation[0]));
    assert(e.subrange(4, 8) =~= spec_u32_to_le_bytes(record.translation[1]));
    assert(e.subrange(8, 12) =~= spec_u32_to_le_bytes(record.translation[2]));
    assert(e.subrange(12, 16) =~= spec_u32_to_le_bytes(record.rotation[0]));
    assert(e.subrange(16, 20) =~= spec_u32_to_le_bytes(record.rotation[1]));
    assert(e.subrange(20, 24) =~= spec_u32_to_le_bytes(record.rotation[2]));
    assert(e.subrange(24, 28) =~= spec_u32_to_le_bytes(record.rotation[3]));
    assert(e.subrange(28, 32) =~= spec_u32_to_le_bytes(record.scale[0]));
    assert(e.subrange(32, 36) =~= spec_u32_to_le_bytes(record.scale[1]));
    assert(e.subrange(36, 40) =~= spec_u32_to_le_bytes(record.scale[2]));
}

/// Two records with the same encoding are the same record.
pub proof fn lemma_record_encoding_is_injective(a: TransformRecord, b: TransformRecord)
    requires
        record_encoding(a) == record_encoding(b),
    ensures
        a == b,
{
    lemma_auto_spec_u32_to_from_le_bytes();
    lemma_record_encoding(a);
    lemma_record_encoding(b);
    assert(a.translation[0] == b.translation[0]);
    assert(a.translation[1] == b.translation[1]);
    assert(a.translation[2] == b.translation[2]);
    assert(a.rotation[0] == b.rotation[0]);
    assert(a.rotation[1] == b.rotation[1]);
    assert(a.rotation[2] == b.rotation[2]);
    assert(a.rotation[3] == b.rotation[3]);
    assert(a.scale[0] == b.scale[0]);
    assert(a.scale[1] == b.scale[1]);
    assert(a.scale[2] == b.scale[2]);
    assert(a.translation =~= b.translation);
    assert(a.rotation =~= b.rotation);
    assert(a.scale =~= b.scale);
}

/// The encoded records take `RECORD_BYTES` bytes each, and each stands at
/// `RECORD_BYTES` times its index.
pub proof fn lemma_records_encoding(records: Seq<TransformRecord>)
    ensures
        records_encoding(records).len() == RECORD_BYTES * records.len(),
        forall|i: int|
            0 <= i < records.len() ==> #[trigger] records_encoding(records).subrange(
                RECORD_BYTES * i,
                RECORD_BYTES * i + RECORD_BYTES,
            ) == record_encoding(records[i]),
    decreases records.len(),
{
    if records.len() > 0 {
        let rest = records.drop_last();
        lemma_records_encoding(rest);
        lemma_record_encoding(records.last());
        let whole = records_encoding(records);
        assert forall|i: int| 0 <= i < records.len() implies #[trigger] whole.subrange(
            RECORD_BYTES * i,
            RECORD_BYTES * i + RECORD_BYTES,
        ) == record_encoding(records[i]) by {
            if i < rest.len() {
                assert(whole.subrange(RECORD_BYTES * i, RECORD_BYTES * i + RECORD_BYTES)
                    =~= records_encoding(rest).subrange(
                    RECORD_BYTES * i,
                    RECORD_BYTES * i + RECORD_BYTES,
                ));
                assert(rest[i] == records[i]);
            } else {
                assert(whole.subrange(RECORD_BYTES * i, RECORD_BYTES * i + RECORD_BYTES)
                    =~= record_encoding(records.last()));
            }
        }
    }
}

/// A payload starts with the count of its records and is as long as the
/// count says.
pub proof fn lemma_encoding(records: Seq<TransformRecord>)
    requires
        records.len() <= u64::MAX,
    ensures
        encoding(records).len() == COUNT_BYTES + RECORD_BYTES * records.len(),
        spec_u64_from_le_bytes(encoding(records).subrange(0, COUNT_BYTES as int))
            == records.len(),
        encoding(records).subrange(COUNT_BYTES as int, encoding(records).len() as int)
            == records_encoding(records),
{
    lemma_auto_spec_u64_to_from_le_bytes();
    lemma_records_encoding(records);
    let count = spec_u64_to_le_bytes(records.len() as u64);
    assert(encoding(records).subrange(0, COUNT_BYTES as int) =~= count);
    assert(encoding(records).subrange(COUNT_BYTES as int, encoding(records).len() as int)
        =~= records_encoding(records));
}

/// Two snapshots with the same payload are the same snapshot.
pub proof fn lemma_encoding_is_injective(a: Seq<TransformRecord>, b: Seq<TransformRecord>)
    requires
        a.len() <= u64::MAX,
        b.len() <= u64::MAX,
        encoding(a) == encoding(b),
    ensures
        a == b,
{
    lemma_encoding(a);
    lemma_encoding(b);
    lemma_records_encoding(a);
    lemma_records_encoding(b);
    assert(a.len() == b.len());
    assert forall|i: int| 0 <= i < a.len() implies a[i] == b[i] by {
        assert(records_encoding(a).subrange(RECORD_BYTES * i, RECORD_BYTES * i + RECORD_BYTES)
            == record_encoding(a[i]));
        assert(records_encoding(b).subrange(RECORD_BYTES * i, RECORD_BYTES * i + RECORD_BYTES)
            == record_encoding(b[i]));
        lemma_record_encoding_is_injective(a[i], b[i]);
    }
    assert(a =~= b);
}

/// Decoding the payload of a snapshot gives the snapshot back: as many
/// records, each equal to the one it was made from.
pub proof fn lemma_round_trip(records: Seq<TransformRecord>, decoded: Option<Seq<TransformRecord>>)
    requires
        records.len() <= u64::MAX,
        decodes_to(encoding(records), decoded),
    ensures
        decoded == Some(records),
{
    match decoded {
        Some(back) => {
            lemma_encoding_is_injective(back, records);
        },
        None => {
            assert(encoding(records) != encoding(records));
        },
    }
}

/// The word that stands in `bytes` at `at`.
fn read_word(bytes: &[u8], at: usize) -> (word: u32)
    requires
        at + 4 <= bytes@.len() <= usize::MAX,
    ensures
        spec_u32_to_le_bytes(word) == bytes@.subrange(at as int, at + 4),
{
    proof {
        lemma_auto_spec_u32_to_from_le_bytes();
    }
    u32_from_le_bytes(slice_subrange(bytes, at, at + 4))
}

/// The record that stands in `bytes` at `at`.
fn read_record(bytes: &[u8], at: usize) -> (record: TransformRecord)
    requires
        at + RECORD_BYTES <= bytes@.len() <= usize::MAX,
    ensures
        record_encoding(record) == bytes@.subrange(at as int, at + RECORD_BYTES),
{
    let record = TransformRecord {
        translation: [read_word(bytes, at), read_word(bytes, at + 4), read_word(bytes, at + 8)],
        rotation: [
            read_word(bytes, at + 12),
            read_word(bytes, at + 16),
            read_word(bytes, at + 20),
            read_word(bytes, at + 24),
        ],
        scale: [read_word(bytes, at + 28), read_word(bytes, at + 32), read_word(bytes, at + 36)],
    };
    proof {
        lemma_auto_spec_u32_to_from_le_bytes();
        assert(record_encoding(record) =~= bytes@.subrange(at as int, at + RECORD_BYTES));
    }
    record
}

/// Reads a payload back into the snapshot that it carries. Returns `None`
/// exactly when the bytes are the payload of no snapshot: when they are too
/// few to hold a count, or are not as many as the count asks for.
pub fn deserialize(bytes: &[u8]) -> (out: Option<Vec<TransformRecord>>)
    ensures
        decodes_to(
            bytes@,
            match out {
                Some(records) => Some(records@),
                None => None,
            },
        ),
{
    let len: usize = bytes.len();
    if len < COUNT_BYTES {
        assert forall|records: Seq<TransformRecord>|
            records.len() <= u64::MAX implies #[trigger] encoding(records) != bytes@ by {
            lemma_encoding(records);
        }
        return None;
    }
    let count: u64 = u64_from_le_bytes(slice_subrange(bytes, 0, COUNT_BYTES));
    let body: usize = len - COUNT_BYTES;
    if body % RECORD_BYTES != 0 || (body / RECORD_BYTES) as u64 != count {
        assert forall|records: Seq<TransformRecord>|
            records.len() <= u64::MAX implies #[trigger] encoding(records) != bytes@ by {
            lemma_encoding(records);
        }
        return None;
    }
    let mut records: Vec<TransformRecord> = Vec::new();
    let mut at: usize = COUNT_BYTES;
    while at < len
        invariant
            COUNT_BYTES <= at <= len,
            len == bytes@.len(),
            (len - at) % (RECORD_BYTES as int) == 0,
            at == COUNT_BYTES + RECORD_BYTES * records.len(),
            records_encoding(records@) == bytes@.subrange(COUNT_BYTES as int, at as int),
        decreases len - at,
    {
        let record = read_record(bytes, at);
        proof {
            assert(records@.push(record).drop_last() =~= records@);
            assert(records_encoding(records@.push(record)) =~= bytes@.subrange(
                COUNT_BYTES as int,
                at + RECORD_BYTES,
            ));
        }
        records.push(record);
        at = at + RECORD_BYTES;
    }
    proof {
        lemma_auto_spec_u64_to_from_le_bytes();
        assert(encoding(records@) =~= bytes@);
    }
    Some(records)
}

} // verus!
