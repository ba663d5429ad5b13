//! The records of a Kafka record batch, independent of their wire encoding.
use vstd::prelude::*;

verus! {

/// What the timestamp of a record means.
#[derive(Clone, Copy, Debug, PartialEq, Eq, Structural)]
pub enum TimestampType {
    /// The client set the timestamp when it created the record.
    Creation,
    /// The broker set the timestamp when it appended the record to the log.
    LogAppend,
}

/// The compression codecs a record batch can name.
#[derive(Clone, Copy, Debug, PartialEq, Eq, Structural)]
pub enum Compression {
    /// The records are stored as they are.
    Uncompressed,
    Gzip,
    Snappy,
    Lz4,
    Zstd,
}

/// Value of `producer_id` on a record that has none.
pub const NO_PRODUCER_ID: i64 = -1;

/// Value of `producer_epoch` on a record that has none.
pub const NO_PRODUCER_EPOCH: i16 = -1;

/// Value of `partition_leader_epoch` on a record that has none.
pub const NO_PARTITION_LEADER_EPOCH: i32 = -1;

/// Value of `sequence` on a record that has none.
pub const NO_SEQUENCE: i32 = -1;

/// Value of `timestamp` on a record that has none.
pub const NO_TIMESTAMP: i64 = -1;

/// One header of a record: a name and an optional value.
#[derive(Clone, Debug, PartialEq, Eq)]
pub struct RecordHeader {
    pub key: String,
    pub value: Option<Vec<u8>>,
}

/// One record of a batch. An absent `value` marks a tombstone and is not the
/// same as an empty one.
#[derive(Clone, Debug, PartialEq, Eq)]
pub struct LogicalRecord {
    pub transactional: bool,
    pub control: bool,
    pub partition_leader_epoch: i32,
    pub producer_id: i64,
    pub producer_epoch: i16,
    pub timestamp_type: TimestampType,
    pub offset: i64,
    pub sequence: i32,
    pub timestamp: i64,
    pub key: Option<Vec<u8>>,
    pub value: Option<Vec<u8>>,
    pub headers: Vec<RecordHeader>,
}

/// Mathematical model of a [`RecordHeader`].
pub ghost struct HeaderView {
    pub key: Seq<char>,
    pub value: Option<Seq<u8>>,
}

/// Mathematical model of a [`LogicalRecord`].
pub ghost struct RecordView {
    pub transactional: bool,
    pub control: bool,
    pub partition_leader_epoch: i32,
    pub producer_id: i64,
    pub producer_epoch: i16,
    pub timestamp_type: TimestampType,
    pub offset: i64,
    pub sequence: i32,
    pub timestamp: i64,
    pub key: Option<Seq<u8>>,
    pub value: Option<Seq<u8>>,
    pub headers: Seq<HeaderView>,
}

/// The bytes of an optional buffer, if it is there.
pub open spec fn bytes_view(bytes: Option<Vec<u8>>) -> Option<Seq<u8>> {
    match bytes {
        Some(b) => Some(b@),
        None => None,
    }
}

impl View for RecordHeader {
    type V = HeaderView;

    open spec fn view(&self) -> HeaderView {
        HeaderView { key: self.key@, value: bytes_view(self.value) }
    }
}

impl DeepView for RecordHeader {
    type V = HeaderView;

    open spec fn deep_view(&self) -> HeaderView {
        self@
    }
}

impl View for LogicalRecord {
    type V = RecordView;

    open spec fn view(&self) -> RecordView {
        RecordView {
            transactional: self.transactional,
            control: self.control,
            partition_leader_epoch: self.partition_leader_epoch,
            producer_id: self.producer_id,
            producer_epoch: self.producer_epoch,
            timestamp_type: self.timestamp_type,
            offset: self.offset,
            sequence: self.sequence,
            timestamp: self.timestamp,
            key: bytes_view(self.key),
            value: bytes_view(self.value),
            headers: self.headers.deep_view(),
        }
    }
}

impl DeepView for LogicalRecord {
    type V = RecordView;

    open spec fn deep_view(&self) -> RecordView {
        self@
    }
}

/// No two headers carry the same name.
pub open spec fn distinct_header_keys(headers: Seq<HeaderView>) -> bool {
    forall|i: int, j: int|
        0 <= i < j < headers.len() ==> (#[trigger] headers[i]).key != (#[trigger] headers[j]).key
}

/// Every record of the sequence has headers with distinct names.
pub open spec fn all_distinct_header_keys(records: Seq<RecordView>) -> bool {
    forall|i: int| 0 <= i < records.len() ==> distinct_header_keys((#[trigger] records[i]).headers)
}

/// The record with its value, if it has one, replaced by `replacement`; a
/// record without a value stays without one.
pub open spec fn with_value_replaced(record: RecordView, replacement: Seq<u8>) -> RecordView {
    RecordView {
        value: if record.value is Some {
            Some(replacement)
        } else {
            None
        },
        ..record
    }
}

impl LogicalRecord {
    /// A record with the given key and value, no headers, offset zero, and
    /// every other property at the value that stands for "none".
    pub fn new(key: Option<Vec<u8>>, value: Option<Vec<u8>>) -> (out: LogicalRecord)
        ensures
            out.key == key,
            out.value == value,
            out.headers@.len() == 0,
            !out.transactional,
            !out.control,
            out.partition_leader_epoch == NO_PARTITION_LEADER_EPOCH,
            out.producer_id == NO_PRODUCER_ID,
            out.producer_epoch == NO_PRODUCER_EPOCH,
            out.timestamp_type == TimestampType::Creation,
            out.offset == 0,
            out.sequence == NO_SEQUENCE,
            out.timestamp == NO_TIMESTAMP,
    {
        LogicalRecord {
            transactional: false,
            control: false,
            partition_leader_epoch: NO_PARTITION_LEADER_EPOCH,
            producer_id: NO_PRODUCER_ID,
            producer_epoch: NO_PRODUCER_EPOCH,
            timestamp_type: TimestampType::Creation,
            offset: 0,
            sequence: NO_SEQUENCE,
            timestamp: NO_TIMESTAMP,
            key,
            value,
            headers: Vec::new(),
        }
    }

    /// Whether the record carries a value, that is, is no tombstone.
    pub fn has_value(&self) -> (out: bool)
        ensures
            out == (self@.value is Some),
    {
        self.value.is_some()
    }

    /// Replaces a present value by a copy of `replacement` and leaves an
    /// absent one absent. Nothing else changes.
    pub fn replace_value(&mut self, replacement: &[u8])
        ensures
            final(self)@ == with_value_replaced(old(self)@, replacement@),
    {
        if self.value.is_some() {
            let mut value: Vec<u8> = Vec::new();
            value.extend_from_slice(replacement);
            assert(value@ =~= replacement@);
            self.value = Some(value);
        }
    }

    /// Whether no two headers of the record carry the same name.
    pub fn has_distinct_header_keys(&self) -> (out: bool)
        ensures
            out == distinct_header_keys(self@.headers),
    {
        let n: usize = self.headers.len();
        let mut j: usize = 0;
        while j < n
            invariant
                j <= n,
                n == self.headers@.len(),
                forall|a: int, b: int|
                    0 <= a < b < j ==> (#[trigger] self.headers@[a]).key@ != (
                    #[trigger] self.headers@[b]).key@,
            decreases n - j,
        {
            let mut i: usize = 0;
            while i < j
                invariant
                    i <= j,
                    j < n,
                    n == self.headers@.len(),
                    forall|a: int| 0 <= a < i ==> (#[trigger] self.headers@[a]).key@ != self.headers@[j as int].key@,
                decreases j - i,
            {
                if self.headers[i].key == self.headers[j].key {
                    assert(self@.headers[i as int].key == self@.headers[j as int].key);
                    return false;
                }
                i += 1;
            }
            j += 1;
        }
        assert forall|a: int, b: int| 0 <= a < b < self@.headers.len() implies (
        #[trigger] self@.headers[a]).key != (#[trigger] self@.headers[b]).key by {
            assert(self.headers@[a].key@ != self.headers@[b].key@);
        }
        true
    }
}

} // verus!
