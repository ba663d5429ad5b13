//! Decoding record batches into records and encoding records into batches.
//!
//! The wire format itself is the business of the `kafka-protocol` crate. This
//! module hands it bytes and records, names what it returns, and proves the
//! conversion and the error handling around the two calls.
use crate::framing::{deltas_in_range, deltas_stay_in_range};
use crate::record::{
    all_distinct_header_keys, Compression, LogicalRecord, RecordHeader, RecordView, TimestampType,
};
use bytes::{Bytes, BytesMut};
use kafka_protocol::protocol::StrBytes;
use kafka_protocol::records as kafka;
use kafka_protocol::records::{Record, RecordBatchDecoder, RecordBatchEncoder, RecordEncodeOptions};
use vstd::prelude::*;
use vstd::string::StringSliceAdditionalSpecFns;
use vstd::utf8::encode_utf8;

verus! {

/// `kafka_protocol::records::Record`, the record type of the `kafka-protocol`
/// crate. Its fields are not visible to the verifier.
#[verifier::external_type_specification]
#[verifier::external_body]
pub struct ExRecord(Record);

/// What a `kafka_protocol::records::Record` holds, field by field, with its
/// headers in the order of its header map.
pub uninterp spec fn record_contents(record: Record) -> RecordView;

/// What `kafka_protocol::records::RecordBatchDecoder::decode` makes of a
/// buffer when it picks the decompressor itself: the records of all batches
/// of the buffer in order, or the text of the error that stopped it.
pub uninterp spec fn decoded_batch(bytes: Seq<u8>) -> Result<Seq<RecordView>, Seq<char>>;

/// What `kafka_protocol::records::RecordBatchEncoder::encode` writes into an
/// empty buffer for the given records, format version and codec when it picks
/// the compressor itself, or the text of the error that stopped it.
pub uninterp spec fn encoded_batch(
    records: Seq<RecordView>,
    version: i8,
    compression: Compression,
) -> Result<Seq<u8>, Seq<char>>;

/// The contents of each record of a sequence.
pub open spec fn contents_of(records: Seq<Record>) -> Seq<RecordView> {
    records.map_values(|r: Record| record_contents(r))
}

/// Any two offsets, and any two timestamps, of the records lie at most
/// `i64::MAX` apart, so that their differences can be computed in an `i64`.
pub open spec fn spread_fits(records: Seq<RecordView>) -> bool {
    forall|i: int, j: int|
        0 <= i < records.len() && 0 <= j < records.len() ==> {
            &&& (#[trigger] records[i]).offset - (#[trigger] records[j]).offset <= i64::MAX
            &&& records[i].timestamp - records[j].timestamp <= i64::MAX
        }
}

/// Calls `kafka_protocol::records::RecordBatchDecoder::decode` on a copy of
/// `bytes`, with no decompressor of the caller's. Not proved: that the
/// records returned, or the text of the error, are what [`decoded_batch`]
/// names for these bytes. For a batch of version 2 the decoder adds the
/// 32-bit offset and timestamp differences of the records to the bases in
/// the batch header, in `i64`; the precondition keeps those sums in range.
#[verifier::external_body]
fn decode_records(bytes: &[u8]) -> (out: Result<Vec<Record>, String>)
    requires
        deltas_in_range(bytes@, 0),
    ensures
        match out {
            Ok(records) => decoded_batch(bytes@) == Ok::<Seq<RecordView>, Seq<char>>(
                contents_of(records@),
            ),
            Err(text) => decoded_batch(bytes@) == Err::<Seq<RecordView>, Seq<char>>(text@),
        },
{
    let mut buf = Bytes::copy_from_slice(bytes);
    let own = None::<fn(&mut Bytes, kafka::Compression) -> anyhow::Result<Bytes>>;
    RecordBatchDecoder::decode(&mut buf, own).map_err(|e| e.to_string())
}

/// Calls `kafka_protocol::records::RecordBatchEncoder::encode` on an empty
/// buffer, with no compressor of the caller's. Not proved: that the bytes
/// written, or the text of the error, are what [`encoded_batch`] names for
/// these records and options. For format version 2 the encoder subtracts
/// offsets and timestamps from one another in `i64`; the precondition keeps
/// those differences in range.
#[verifier::external_body]
fn encode_records(records: &Vec<Record>, version: i8, compression: Compression) -> (out: Result<
    Vec<u8>,
    String,
>)
    requires
        version == 2 ==> spread_fits(contents_of(records@)),
    ensures
        match out {
            Ok(bytes) => encoded_batch(contents_of(records@), version, compression) == Ok::<
                Seq<u8>,
                Seq<char>,
            >(bytes@),
            Err(text) => encoded_batch(contents_of(records@), version, compression) == Err::<
                Seq<u8>,
                Seq<char>,
            >(text@),
        },
{
    let compression = match compression {
        Compression::Uncompressed => kafka::Compression::None,
        Compression::Gzip => kafka::Compression::Gzip,
        Compression::Snappy => kafka::Compression::Snappy,
        Compression::Lz4 => kafka::Compression::Lz4,
        Compression::Zstd => kafka::Compression::Zstd,
    };
    let own = None::<fn(&mut BytesMut, &mut BytesMut, kafka::Compression) -> anyhow::Result<()>>;
    let mut buf = BytesMut::new();
    let options = RecordEncodeOptions { version, compression };
    match RecordBatchEncoder::encode(&mut buf, records.iter(), &options, own) {
        Ok(()) => Ok(buf.to_vec()),
        Err(e) => Err(e.to_string()),
    }
}

/// Copies the fields of a `kafka_protocol::records::Record` into a
/// [`LogicalRecord`]. Not proved: that the copy holds what
/// [`record_contents`] names for the record.
#[verifier::external_body]
fn import_record(record: &Record) -> (out: LogicalRecord)
    ensures
        out@ == record_contents(*record),
{
    LogicalRecord {
        transactional: record.transactional,
        control: record.control,
        partition_leader_epoch: record.partition_leader_epoch,
        producer_id: record.producer_id,
        producer_epoch: record.producer_epoch,
        timestamp_type: match record.timestamp_type { kafka::TimestampType::Creation => TimestampType::Creation, kafka::TimestampType::LogAppend => TimestampType::LogAppend },
        offset: record.offset,
        sequence: record.sequence,
        timestamp: record.timestamp,
        key: record.key.as_ref().map(|b| b.to_vec()),
        value: record.value.as_ref().map(|b| b.to_vec()),
        headers: record.headers.iter().map(|(k, v)| RecordHeader { key: k.as_str().to_owned(), value: v.as_ref().map(|b| b.to_vec()) }).collect(),
    }
}

/// Builds a `kafka_protocol::records::Record` from the fields of a
/// [`LogicalRecord`]. Not proved: that the record built holds, by
/// [`record_contents`], what the logical record holds. The header map of
/// the outside record keeps one entry per name, so the names must differ.
#[verifier::external_body]
fn export_record(record: &LogicalRecord) -> (out: Record)
    requires
        crate::record::distinct_header_keys(record@.headers),
    ensures
        record_contents(out) == record@,
{
    Record {
        transactional: record.transactional,
        control: record.control,
        partition_leader_epoch: record.partition_leader_epoch,
        producer_id: record.producer_id,
        producer_epoch: record.producer_epoch,
        timestamp_type: match record.timestamp_type { TimestampType::Creation => kafka::TimestampType::Creation, TimestampType::LogAppend => kafka::TimestampType::LogAppend },
        offset: record.offset,
        sequence: record.sequence,
        timestamp: record.timestamp,
        key: record.key.as_ref().map(|b| Bytes::copy_from_slice(b)),
        value: record.value.as_ref().map(|b| Bytes::copy_from_slice(b)),
        headers: record.headers.iter().map(|h| (StrBytes::from_string(h.key.clone()), h.value.as_ref().map(|b| Bytes::copy_from_slice(b)))).collect(),
    }
}

/// Why a buffer could not be decoded into records.
#[derive(Clone, Copy, Debug, PartialEq, Eq, Structural)]
pub enum DecodeError {
    /// A batch names a compression codec that is unknown or not available.
    UnsupportedCodec,
    /// A batch names a format version that is unknown.
    UnsupportedVersion,
    /// The checksum of a batch does not match its contents.
    BadChecksum,
    /// The buffer ends before the batch does.
    Truncated,
    /// A batch of version 2 has a base offset or a first timestamp so close
    /// to the limits of `i64` that those of its records could lie beyond.
    OutOfRange,
    /// The buffer is malformed in some other way.
    Malformed,
}

/// Why records could not be encoded into a batch.
#[derive(Clone, Copy, Debug, PartialEq, Eq, Structural)]
pub enum EncodeError {
    /// A record has two headers of the same name.
    DuplicateHeaderKey,
    /// Format version 2 was asked for and two offsets or two timestamps lie
    /// more than `i64::MAX` apart.
    RangeTooWide,
    /// The format version is unknown.
    UnsupportedVersion,
    /// The format version cannot express a record: transactional or control
    /// records, or headers, in a legacy message set.
    UnsupportedRecord,
    /// The codec is not available, or not for this format version.
    UnsupportedCodec,
    /// The encoder refused the records for some other reason, such as their
    /// number or size.
    Rejected,
}

/// `text` starts with `prefix`.
pub open spec fn has_prefix(text: Seq<u8>, prefix: Seq<u8>) -> bool {
    prefix.len() <= text.len() && text.subrange(0, prefix.len() as int) == prefix
}

/// The error that a failure text of the decoder stands for.
pub open spec fn decode_failure_kind(text: Seq<char>) -> DecodeError {
    let t = encode_utf8(text);
    if has_prefix(t, "Unknown compression algorithm".spec_bytes()) || has_prefix(
        t,
        "Support for".spec_bytes(),
    ) {
        DecodeError::UnsupportedCodec
    } else if has_prefix(t, "Unknown record batch version".spec_bytes()) {
        DecodeError::UnsupportedVersion
    } else if has_prefix(t, "Cyclic redundancy check failed".spec_bytes()) {
        DecodeError::BadChecksum
    } else if has_prefix(t, "Not enough bytes".spec_bytes()) {
        DecodeError::Truncated
    } else {
        DecodeError::Malformed
    }
}

/// The error that a failure text of the encoder stands for.
pub open spec fn encode_failure_kind(text: Seq<char>) -> EncodeError {
    let t = encode_utf8(text);
    if has_prefix(t, "Unknown record batch version".spec_bytes()) {
        EncodeError::UnsupportedVersion
    } else if has_prefix(t, "Transactional and control records are not supported".spec_bytes())
        || has_prefix(t, "Record headers are not supported".spec_bytes()) {
        EncodeError::UnsupportedRecord
    } else if has_prefix(t, "Compression algorithm".spec_bytes()) || has_prefix(
        t,
        "Support for".spec_bytes(),
    ) {
        EncodeError::UnsupportedCodec
    } else {
        EncodeError::Rejected
    }
}

/// What decoding a buffer results in: the records of its batches in order,
/// or the reason why there are none.
pub open spec fn decode_outcome(bytes: Seq<u8>) -> Result<Seq<RecordView>, DecodeError> {
    if !deltas_in_range(bytes, 0) {
        Err(DecodeError::OutOfRange)
    } else {
        match decoded_batch(bytes) {
            Ok(records) => Ok(records),
            Err(text) => Err(decode_failure_kind(text)),
        }
    }
}

/// What encoding records results in: the bytes of the batch, or the reason
/// why there are none.
pub open spec fn encode_outcome(
    records: Seq<RecordView>,
    version: i8,
    compression: Compression,
) -> Result<Seq<u8>, EncodeError> {
    if !all_distinct_header_keys(records) {
        Err(EncodeError::DuplicateHeaderKey)
    } else if version == 2 && !spread_fits(records) {
        Err(EncodeError::RangeTooWide)
    } else {
        match encoded_batch(records, version, compression) {
            Ok(bytes) => Ok(bytes),
            Err(text) => Err(encode_failure_kind(text)),
        }
    }
}

/// Whether `text` starts with `prefix`.
pub fn begins_with(text: &[u8], prefix: &[u8]) -> (out: bool)
    ensures
        out == has_prefix(text@, prefix@),
{
    if prefix.len() > text.len() {
        return false;
    }
    let mut i: usize = 0;
    while i < prefix.len()
        invariant
            i <= prefix@.len() <= text@.len(),
            forall|k: int| 0 <= k < i ==> text@[k] == prefix@[k],
        decreases prefix.len() - i,
    {
        if text[i] != prefix[i] {
            assert(text@.subrange(0, prefix@.len() as int)[i as int] != prefix@[i as int]);
            return false;
        }
        i += 1;
    }
    assert(text@.subrange(0, prefix@.len() as int) =~= prefix@);
    true
}

/// Tells from the text of a decoder failure which error it is.
pub fn classify_decode_failure(text: &str) -> (out: DecodeError)
    ensures
        out == decode_failure_kind(text@),
{
    let t = text.as_bytes();
    if begins_with(t, "Unknown compression algorithm".as_bytes()) || begins_with(
        t,
        "Support for".as_bytes(),
    ) {
        DecodeError::UnsupportedCodec
    } else if begins_with(t, "Unknown record batch version".as_bytes()) {
        DecodeError::UnsupportedVersion
    } else if begins_with(t, "Cyclic redundancy check failed".as_bytes()) {
        DecodeError::BadChecksum
    } else if begins_with(t, "Not enough bytes".as_bytes()) {
        DecodeError::Truncated
    } else {
        DecodeError::Malformed
    }
}

/// Tells from the text of an encoder failure which error it is.
pub fn classify_encode_failure(text: &str) -> (out: EncodeError)
    ensures
        out == encode_failure_kind(text@),
{
    let t = text.as_bytes();
    if begins_with(t, "Unknown record batch version".as_bytes()) {
        EncodeError::UnsupportedVersion
    } else if begins_with(t, "Transactional and control records are not supported".as_bytes())
        || begins_with(t, "Record headers are not supported".as_bytes()) {
        EncodeError::UnsupportedRecord
    } else if begins_with(t, "Compression algorithm".as_bytes()) || begins_with(
        t,
        "Support for".as_bytes(),
    ) {
        EncodeError::UnsupportedCodec
    } else {
        EncodeError::Rejected
    }
}

/// Whether the headers of every record have distinct names.
pub fn all_headers_distinct(records: &Vec<LogicalRecord>) -> (out: bool)
    ensures
        out == all_distinct_header_keys(records.deep_view()),
{
    let mut i: usize = 0;
    while i < records.len()
        invariant
            i <= records@.len(),
            forall|k: int|
                0 <= k < i ==> crate::record::distinct_header_keys(
                    (#[trigger] records.deep_view()[k]).headers,
                ),
        decreases records.len() - i,
    {
        if !records[i].has_distinct_header_keys() {
            assert(records.deep_view()[i as int] == records@[i as int]@);
            return false;
        }
        assert(records.deep_view()[i as int] == records@[i as int]@);
        i += 1;
    }
    true
}

/// Whether any two offsets, and any two timestamps, of the records lie at
/// most `i64::MAX` apart.
pub fn differences_fit(records: &Vec<LogicalRecord>) -> (out: bool)
    ensures
        out == spread_fits(records.deep_view()),
{
    let n: usize = records.len();
    if n == 0 {
        return true;
    }
    let ghost view = records.deep_view();
    let mut low_offset: i64 = records[0].offset;
    let mut high_offset: i64 = records[0].offset;
    let mut low_time: i64 = records[0].timestamp;
    let mut high_time: i64 = records[0].timestamp;
    let ghost mut at_low_offset: int = 0;
    let ghost mut at_high_offset: int = 0;
    let ghost mut at_low_time: int = 0;
    let ghost mut at_high_time: int = 0;
    assert(view[0] == records@[0]@);
    let mut i: usize = 1;
    while i < n
        invariant
            1 <= i <= n,
            n == records@.len(),
            view == records.deep_view(),
            0 <= at_low_offset < i && view[at_low_offset].offset == low_offset,
            0 <= at_high_offset < i && view[at_high_offset].offset == high_offset,
            0 <= at_low_time < i && view[at_low_time].timestamp == low_time,
            0 <= at_high_time < i && view[at_high_time].timestamp == high_time,
            forall|k: int|
                0 <= k < i ==> low_offset <= (#[trigger] view[k]).offset <= high_offset
                    && low_time <= view[k].timestamp <= high_time,
        decreases n - i,
    {
        assert(view[i as int] == records@[i as int]@);
        let offset: i64 = records[i].offset;
        let time: i64 = records[i].timestamp;
        if offset < low_offset {
            low_offset = offset;
            proof {
                at_low_offset = i as int;
            }
        }
        if offset > high_offset {
            high_offset = offset;
            proof {
                at_high_offset = i as int;
            }
        }
        if time < low_time {
            low_time = time;
            proof {
                at_low_time = i as int;
            }
        }
        if time > high_time {
            high_time = time;
            proof {
                at_high_time = i as int;
            }
        }
        i += 1;
    }
    let fits: bool = high_offset as i128 - low_offset as i128 <= i64::MAX as i128
        && high_time as i128 - low_time as i128 <= i64::MAX as i128;
    proof {
        if !fits {
            if high_offset - low_offset > i64::MAX {
                assert(view[at_high_offset].offset - view[at_low_offset].offset > i64::MAX);
            } else {
                assert(view[at_high_time].timestamp - view[at_low_time].timestamp > i64::MAX);
            }
        }
    }
    fits
}

/// Copies the records that the decoder returned into records of this
/// library, in order.
fn import_records(outside: &Vec<Record>) -> (out: Vec<LogicalRecord>)
    ensures
        out.deep_view() == contents_of(outside@),
{
    let mut out: Vec<LogicalRecord> = Vec::new();
    let mut i: usize = 0;
    while i < outside.len()
        invariant
            i <= outside@.len(),
            out@.len() == i,
            forall|k: int| 0 <= k < i ==> (#[trigger] out@[k])@ == record_contents(outside@[k]),
        decreases outside.len() - i,
    {
        out.push(import_record(&outside[i]));
        i += 1;
    }
    assert(out.deep_view() =~= contents_of(outside@));
    out
}

/// Builds the records that the encoder takes from records of this library,
/// in order.
fn export_records(records: &Vec<LogicalRecord>) -> (out: Vec<Record>)
    requires
        all_distinct_header_keys(records.deep_view()),
    ensures
        contents_of(out@) == records.deep_view(),
{
    let mut out: Vec<Record> = Vec::new();
    let mut i: usize = 0;
    while i < records.len()
        invariant
            i <= records@.len(),
            out@.len() == i,
            all_distinct_header_keys(records.deep_view()),
            forall|k: int| 0 <= k < i ==> record_contents(#[trigger] out@[k]) == records@[k]@,
        decreases records.len() - i,
    {
        assert(records.deep_view()[i as int] == records@[i as int]@);
        out.push(export_record(&records[i]));
        i += 1;
    }
    assert(contents_of(out@) =~= records.deep_view());
    out
}

/// The codec for record batches: pure functions between bytes and records.
pub struct RecordBatchCodec;

impl RecordBatchCodec {
    /// Decodes the record batches of `bytes` into their records, in order.
    /// Fails on a buffer that is truncated or malformed, whose checksum does
    /// not match, that names an unknown version or codec, or whose offsets
    /// or timestamps could leave the range of `i64`.
    pub fn decode(bytes: &[u8]) -> (out: Result<Vec<LogicalRecord>, DecodeError>)
        ensures
            match out {
                Ok(records) => decode_outcome(bytes@) == Ok::<Seq<RecordView>, DecodeError>(
                    records.deep_view(),
                ),
                Err(e) => decode_outcome(bytes@) == Err::<Seq<RecordView>, DecodeError>(e),
            },
    {
        if !deltas_stay_in_range(bytes) {
            return Err(DecodeError::OutOfRange);
        }
        match decode_records(bytes) {
            Ok(outside) => Ok(import_records(&outside)),
            Err(text) => Err(classify_decode_failure(text.as_str())),
        }
    }

    /// Encodes `records` into record batches of the given format version
    /// (0, 1 or 2), compressed with the given codec.
    pub fn encode(records: &Vec<LogicalRecord>, version: i8, compression: Compression) -> (out:
        Result<Vec<u8>, EncodeError>)
        ensures
            match out {
                Ok(bytes) => encode_outcome(records.deep_view(), version, compression) == Ok::<
                    Seq<u8>,
                    EncodeError,
                >(bytes@),
                Err(e) => encode_outcome(records.deep_view(), version, compression) == Err::<
                    Seq<u8>,
                    EncodeError,
                >(e),
            },
    {
        if !all_headers_distinct(records) {
            return Err(EncodeError::DuplicateHeaderKey);
        }
        if version == 2 && !differences_fit(records) {
            return Err(EncodeError::RangeTooWide);
        }
        let outside = export_records(records);
        match encode_records(&outside, version, compression) {
            Ok(bytes) => Ok(bytes),
            Err(text) => Err(classify_encode_failure(text.as_str())),
        }
    }
}

} // verus!
