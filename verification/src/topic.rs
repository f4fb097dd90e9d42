//! Records that travel through the topics of a message broker.
use crate::outside::{lower_case, to_lowercase};
use crate::text::{contains, contains_text};
use vstd::prelude::*;

verus! {

/// A record: what it says, and what it is filed under.
#[derive(Debug, Clone, PartialEq, Eq)]
pub struct RawRecord {
    pub key: Option<Vec<u8>>,
    pub payload: Vec<u8>,
}

/// Records of a topic, and the offset at which each of them is stored.
#[derive(Debug, Clone, PartialEq, Eq)]
pub struct RawBatch {
    pub records: Vec<RawRecord>,
    pub offsets: Vec<i64>,
}

/// The offsets at which published records were stored.
#[derive(Debug, Clone, PartialEq, Eq)]
pub struct PublishAck {
    pub offsets: Vec<i64>,
}

/// What the broker complained about.
#[derive(Debug)]
pub enum PortError {
    Kafka(String),
}

/// A record as the broker keeps it: it may have nothing to say.
pub struct StoredRecord {
    pub key: Option<Vec<u8>>,
    pub value: Option<Vec<u8>>,
    pub offset: i64,
}

/// What a record as the broker keeps it says: nothing is an empty payload.
pub open spec fn payload_of(r: StoredRecord) -> Seq<u8> {
    match r.value {
        Some(v) => v@,
        None => Seq::empty(),
    }
}

/// A batch holds fetched records, one for one, each with its offset.
pub open spec fn is_batch_of(batch: RawBatch, fetched: Seq<StoredRecord>) -> bool {
    &&& batch.records@.len() == fetched.len()
    &&& batch.offsets@.len() == fetched.len()
    &&& forall|i: int|
        0 <= i < fetched.len() ==> {
            &&& (#[trigger] batch.records@[i]).key == fetched[i].key
            &&& batch.records@[i].payload@ == payload_of(fetched[i])
            &&& batch.offsets@[i] == fetched[i].offset
        }
}

/// The batch that fetched records make.
pub fn batch_of(fetched: Vec<StoredRecord>) -> (out: RawBatch)
    ensures
        is_batch_of(out, fetched@),
{
    let ghost all = fetched@;
    let mut records: Vec<RawRecord> = Vec::new();
    let mut offsets: Vec<i64> = Vec::new();
    for r in iter: fetched
        invariant
            iter.seq() == all,
            records@.len() == iter.index(),
            offsets@.len() == records@.len(),
            forall|i: int|
                0 <= i < records@.len() ==> {
                    &&& (#[trigger] records@[i]).key == all[i].key
                    &&& records@[i].payload@ == payload_of(all[i])
                    &&& offsets@[i] == all[i].offset
                },
    {
        let payload: Vec<u8> = match r.value {
            Some(v) => v,
            None => Vec::new(),
        };
        assert(payload@ =~= payload_of(r));
        records.push(RawRecord { key: r.key, payload });
        offsets.push(r.offset);
    }
    RawBatch { records, offsets }
}

/// The record that the broker is to keep.
pub fn stored(record: RawRecord) -> (out: (Option<Vec<u8>>, Option<Vec<u8>>))
    ensures
        out == (record.key, Some(record.payload)),
{
    (record.key, Some(record.payload))
}

/// The offset from which to go on behind a batch, if it holds anything and
/// offsets go on.
pub fn next_offset(batch: &RawBatch) -> (out: Option<i64>)
    ensures
        out == if batch.offsets@.len() > 0 && batch.offsets@.last() < i64::MAX {
            Some((batch.offsets@.last() + 1) as i64)
        } else {
            None
        },
{
    let n: usize = batch.offsets.len();
    if n > 0 && batch.offsets[n - 1] < i64::MAX {
        Some(batch.offsets[n - 1] + 1)
    } else {
        None
    }
}

/// Whether a topic may be used after an attempt to create it. That it is there
/// already is no fault.
pub fn after_create(attempt: Result<(), String>) -> (out: Result<(), PortError>)
    ensures
        match out {
            Ok(_) => attempt is Ok || (attempt matches Err(e) && contains_text(
                lower_case(e@),
                "already exists"@,
            )),
            Err(PortError::Kafka(message)) => attempt matches Err(e) && message == e
                && !contains_text(lower_case(e@), "already exists"@),
        },
{
    match attempt {
        Ok(_) => Ok(()),
        Err(message) => if contains(to_lowercase(message.as_str()).as_str(), "already exists") {
            Ok(())
        } else {
            Err(PortError::Kafka(message))
        },
    }
}

/// How long the broker is to wait for a record, in the number that it takes:
/// never longer than asked for, and shorter only where it cannot count as far.
pub fn fetch_wait(max_wait_ms: u32) -> (out: i32)
    ensures
        out == if max_wait_ms <= i32::MAX {
            max_wait_ms as int
        } else {
            i32::MAX as int
        },
{
    if max_wait_ms <= 0x7fff_ffff {
        max_wait_ms as i32
    } else {
        0x7fff_ffff
    }
}

/// Published records as the broker keeps them, at the offsets that it
/// acknowledged.
pub open spec fn kept(records: Seq<RawRecord>, offsets: Seq<i64>) -> Seq<StoredRecord> {
    Seq::new(
        records.len(),
        |i: int|
            StoredRecord {
                key: records[i].key,
                value: Some(records[i].payload),
                offset: offsets[i],
            },
    )
}

/// Records that are published and fetched again are the records that were
/// published, in their order, at the offsets that were acknowledged.
pub proof fn law_published_records_come_back(
    records: Seq<RawRecord>,
    offsets: Seq<i64>,
    batch: RawBatch,
)
    requires
        offsets.len() == records.len(),
        is_batch_of(batch, kept(records, offsets)),
    ensures
        batch.records@.len() == records.len(),
        forall|i: int|
            0 <= i < records.len() ==> (#[trigger] batch.records@[i]).key == records[i].key
                && batch.records@[i].payload@ == records[i].payload@,
        batch.offsets@ == offsets,
{
    assert forall|i: int| 0 <= i < records.len() implies batch.offsets@[i] == offsets[i] by {
        assert(batch.records@[i].key == kept(records, offsets)[i].key);
    }
    assert(batch.offsets@ =~= offsets);
}

/// A record without a value says nothing; any other says its value.
pub proof fn law_what_a_record_says(r: StoredRecord)
    ensures
        r.value is None ==> payload_of(r) == Seq::<u8>::empty(),
        r.value matches Some(v) ==> payload_of(r) == v@,
{
}

/// A batch is as long as what was fetched, and each of its records has the key,
/// the payload and the offset of the one that was fetched in its place.
pub proof fn law_what_a_batch_holds(batch: RawBatch, fetched: Seq<StoredRecord>, i: int)
    requires
        is_batch_of(batch, fetched),
    ensures
        batch.records@.len() == fetched.len(),
        batch.offsets@.len() == fetched.len(),
        0 <= i < fetched.len() ==> batch.records@[i].key == fetched[i].key && batch.offsets@[i]
            == fetched[i].offset && batch.records@[i].payload@ == (match fetched[i].value {
            Some(v) => v@,
            None => Seq::<u8>::empty(),
        }),
{
    if 0 <= i < fetched.len() {
        assert(batch.records@[i] == batch.records@[i]);
    }
}

} // verus!
