//! The CSV byte record that collection rows are built in

use vstd::prelude::*;
use csv::ByteRecord;

verus! {

#[verifier::external_type_specification]
#[verifier::external_body]
pub struct ExByteRecord(csv::ByteRecord);

/// The fields held by a record, in order
pub uninterp spec fn record_fields(r: ByteRecord) -> Seq<Seq<u8>>;

/// Calls `csv::ByteRecord::with_capacity`. Its source: a record with no
/// fields, with room reserved for the given bytes and fields.
#[verifier::external_body]
pub(crate) fn record_with_capacity(buffer: usize, fields: usize) -> (r: ByteRecord)
    ensures
        record_fields(r) == Seq::<Seq<u8>>::empty(),
{
    ByteRecord::with_capacity(buffer, fields)
}

/// Calls `csv::ByteRecord::push_field`. Its source: appends a copy of the
/// field after the existing fields.
#[verifier::external_body]
pub(crate) fn push_field(record: &mut ByteRecord, field: &[u8])
    ensures
        record_fields(*final(record)) == record_fields(*old(record)).push(field@),
{
    record.push_field(field)
}

/// Calls `csv::ByteRecord::clear`. Its source: truncates the record to zero
/// fields.
#[verifier::external_body]
pub(crate) fn clear_record(record: &mut ByteRecord)
    ensures
        record_fields(*final(record)) == Seq::<Seq<u8>>::empty(),
{
    record.clear()
}

} // verus!
