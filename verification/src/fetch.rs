//! Rewriting the record values of a fetch response.
//!
//! A fetch response holds, per topic and partition, the raw bytes of the
//! record batches that the broker returned. Rewriting decodes them, replaces
//! every value that is present, encodes the records again and puts the new
//! bytes in place of the old. A partition whose bytes cannot be decoded, or
//! whose records cannot be encoded again, is left as it is.
use crate::codec::{decode_outcome, encode_outcome, RecordBatchCodec};
use crate::record::{with_value_replaced, Compression, LogicalRecord, RecordView};
use vstd::prelude::*;

verus! {

/// The format version in which rewritten records are encoded.
pub const REWRITE_VERSION: i8 = 0;

/// The fetch result of one partition. `records` holds the raw record
/// batches; it is absent where the partition has no records or failed.
#[derive(Clone, Debug, PartialEq, Eq)]
pub struct PartitionResponse {
    pub partition_index: i32,
    pub error_code: i16,
    pub records: Option<Vec<u8>>,
}

/// The fetch results of one topic, one per requested partition.
#[derive(Clone, Debug, PartialEq, Eq)]
pub struct TopicResponse {
    pub topic: String,
    pub partitions: Vec<PartitionResponse>,
}

/// A fetch response: the results of each requested topic, in order.
#[derive(Clone, Debug, PartialEq, Eq)]
pub struct FetchResponse {
    pub responses: Vec<TopicResponse>,
}

/// Mathematical model of a [`PartitionResponse`].
pub ghost struct PartitionView {
    pub partition_index: i32,
    pub error_code: i16,
    pub records: Option<Seq<u8>>,
}

/// Mathematical model of a [`TopicResponse`].
pub ghost struct TopicView {
    pub topic: Seq<char>,
    pub partitions: Seq<PartitionView>,
}

/// Mathematical model of a [`FetchResponse`].
pub ghost struct FetchView {
    pub responses: Seq<TopicView>,
}

impl View for PartitionResponse {
    type V = PartitionView;

    open spec fn view(&self) -> PartitionView {
        PartitionView {
            partition_index: self.partition_index,
            error_code: self.error_code,
            records: crate::record::bytes_view(self.records),
        }
    }
}

impl DeepView for PartitionResponse {
    type V = PartitionView;

    open spec fn deep_view(&self) -> PartitionView {
        self@
    }
}

impl View for TopicResponse {
    type V = TopicView;

    open spec fn view(&self) -> TopicView {
        TopicView { topic: self.topic@, partitions: self.partitions.deep_view() }
    }
}

impl DeepView for TopicResponse {
    type V = TopicView;

    open spec fn deep_view(&self) -> TopicView {
        self@
    }
}

impl View for FetchResponse {
    type V = FetchView;

    open spec fn view(&self) -> FetchView {
        FetchView { responses: self.responses.deep_view() }
    }
}

impl DeepView for FetchResponse {
    type V = FetchView;

    open spec fn deep_view(&self) -> FetchView {
        self@
    }
}

/// The records with every present value replaced by `replacement`, in the
/// same order.
pub open spec fn rewritten_records(records: Seq<RecordView>, replacement: Seq<u8>) -> Seq<
    RecordView,
> {
    records.map_values(|r: RecordView| with_value_replaced(r, replacement))
}

/// The bytes that take the place of a partition's record batches, where
/// they can be rewritten: the batches decode, and their records with the
/// values replaced encode again, uncompressed and in [`REWRITE_VERSION`].
pub open spec fn batch_rewrite(bytes: Seq<u8>, replacement: Seq<u8>) -> Option<Seq<u8>> {
    match decode_outcome(bytes) {
        Ok(records) => match encode_outcome(
            rewritten_records(records, replacement),
            REWRITE_VERSION,
            Compression::Uncompressed,
        ) {
            Ok(encoded) => Some(encoded),
            Err(_) => None,
        },
        Err(_) => None,
    }
}

/// The partition after rewriting: new record bytes where there are records
/// that can be rewritten, everything else as before.
pub open spec fn rewritten_partition(partition: PartitionView, replacement: Seq<u8>) -> PartitionView {
    PartitionView {
        records: match partition.records {
            Some(bytes) => match batch_rewrite(bytes, replacement) {
                Some(encoded) => Some(encoded),
                None => Some(bytes),
            },
            None => None,
        },
        ..partition
    }
}

/// The topic after rewriting: each partition rewritten, in the same order.
pub open spec fn rewritten_topic(topic: TopicView, replacement: Seq<u8>) -> TopicView {
    TopicView {
        partitions: topic.partitions.map_values(
            |p: PartitionView| rewritten_partition(p, replacement),
        ),
        ..topic
    }
}

/// The fetch response after rewriting: each topic rewritten, in the same
/// order.
pub open spec fn rewritten_fetch(fetch: FetchView, replacement: Seq<u8>) -> FetchView {
    FetchView { responses: fetch.responses.map_values(|t: TopicView| rewritten_topic(t, replacement)) }
}

/// Replaces every present value among `records` by `replacement`. Absent
/// values stay absent; number and order of the records, and every other
/// field, stay as they are.
pub fn rewrite_records(records: &mut Vec<LogicalRecord>, replacement: &[u8])
    ensures
        final(records).deep_view() == rewritten_records(old(records).deep_view(), replacement@),
{
    let n: usize = records.len();
    let mut i: usize = 0;
    while i < n
        invariant
            i <= n,
            n == records@.len(),
            n == old(records)@.len(),
            forall|k: int|
                0 <= k < i ==> (#[trigger] records@[k])@ == with_value_replaced(
                    old(records)@[k]@,
                    replacement@,
                ),
            forall|k: int| i <= k < n ==> records@[k] == old(records)@[k],
        decreases n - i,
    {
        records[i].replace_value(replacement);
        i += 1;
    }
    assert(records.deep_view() =~= rewritten_records(old(records).deep_view(), replacement@));
}

/// Decodes `bytes`, replaces the values and encodes the records again.
/// Returns the new bytes, or nothing where decoding or encoding fails.
pub fn rewrite_batch(bytes: &[u8], replacement: &[u8]) -> (out: Option<Vec<u8>>)
    ensures
        match out {
            Some(encoded) => batch_rewrite(bytes@, replacement@) == Some(encoded@),
            None => batch_rewrite(bytes@, replacement@) is None,
        },
{
    match RecordBatchCodec::decode(bytes) {
        Ok(mut records) => {
            rewrite_records(&mut records, replacement);
            match RecordBatchCodec::encode(&records, REWRITE_VERSION, Compression::Uncompressed) {
                Ok(encoded) => Some(encoded),
                Err(_) => None,
            }
        },
        Err(_) => None,
    }
}

/// Rewrites the records of one partition in place. A partition without
/// records, or whose records cannot be rewritten, is not touched.
pub fn rewrite_partition(partition: &mut PartitionResponse, replacement: &[u8])
    ensures
        final(partition)@ == rewritten_partition(old(partition)@, replacement@),
        old(partition)@.records matches Some(bytes) && batch_rewrite(bytes, replacement@) is None
            ==> *final(partition) == *old(partition),
        old(partition)@.records is None ==> *final(partition) == *old(partition),
{
    let encoded: Option<Vec<u8>> = match &partition.records {
        Some(bytes) => rewrite_batch(bytes.as_slice(), replacement),
        None => None,
    };
    if let Some(bytes) = encoded {
        partition.records = Some(bytes);
    }
}

/// Rewrites every partition of a topic in place, in order.
pub fn rewrite_topic(topic: &mut TopicResponse, replacement: &[u8])
    ensures
        final(topic)@ == rewritten_topic(old(topic)@, replacement@),
{
    let n: usize = topic.partitions.len();
    let mut i: usize = 0;
    while i < n
        invariant
            i <= n,
            n == topic.partitions@.len(),
            n == old(topic).partitions@.len(),
            topic.topic == old(topic).topic,
            forall|k: int|
                0 <= k < i ==> (#[trigger] topic.partitions@[k])@ == rewritten_partition(
                    old(topic).partitions@[k]@,
                    replacement@,
                ),
            forall|k: int| i <= k < n ==> topic.partitions@[k] == old(topic).partitions@[k],
        decreases n - i,
    {
        rewrite_partition(&mut topic.partitions[i], replacement);
        i += 1;
    }
    assert(topic@.partitions =~= rewritten_topic(old(topic)@, replacement@).partitions);
}

/// Rewrites every topic of a fetch response in place, in order.
pub fn rewrite_fetch_response(fetch: &mut FetchResponse, replacement: &[u8])
    ensures
        final(fetch)@ == rewritten_fetch(old(fetch)@, replacement@),
{
    let n: usize = fetch.responses.len();
    let mut i: usize = 0;
    while i < n
        invariant
            i <= n,
            n == fetch.responses@.len(),
            n == old(fetch).responses@.len(),
            forall|k: int|
                0 <= k < i ==> (#[trigger] fetch.responses@[k])@ == rewritten_topic(
                    old(fetch).responses@[k]@,
                    replacement@,
                ),
            forall|k: int| i <= k < n ==> fetch.responses@[k] == old(fetch).responses@[k],
        decreases n - i,
    {
        rewrite_topic(&mut fetch.responses[i], replacement);
        i += 1;
    }
    assert(fetch@.responses =~= rewritten_fetch(old(fetch)@, replacement@).responses);
}

/// Rewriting preserves presence: a record with a value has the replacement
/// as its value afterwards, and a record without a value has none
/// afterwards.
pub proof fn lemma_rewrite_keeps_presence(records: Seq<RecordView>, replacement: Seq<u8>, i: int)
    requires
        0 <= i < records.len(),
    ensures
        records[i].value is Some ==> rewritten_records(records, replacement)[i].value == Some(
            replacement,
        ),
        records[i].value is None ==> rewritten_records(records, replacement)[i].value is None,
{
}

/// Rewriting touches nothing but values: each record keeps its place, its
/// key, its headers and its metadata.
pub proof fn lemma_rewrite_keeps_records_in_order(
    records: Seq<RecordView>,
    replacement: Seq<u8>,
    i: int,
)
    requires
        0 <= i < records.len(),
    ensures
        rewritten_records(records, replacement).len() == records.len(),
        rewritten_records(records, replacement)[i] == (RecordView {
            value: rewritten_records(records, replacement)[i].value,
            ..records[i]
        }),
{
}

/// Rewriting never changes the number of topics, of partitions of a topic,
/// or of the records that are handed to the encoder for a partition.
pub proof fn lemma_rewrite_keeps_counts(fetch: FetchView, replacement: Seq<u8>)
    ensures
        rewritten_fetch(fetch, replacement).responses.len() == fetch.responses.len(),
        forall|t: int|
            0 <= t < fetch.responses.len() ==> (#[trigger] rewritten_fetch(
                fetch,
                replacement,
            ).responses[t]).partitions.len() == fetch.responses[t].partitions.len(),
        forall|records: Seq<RecordView>| #[trigger]
            rewritten_records(records, replacement).len() == records.len(),
{
}

/// Rewriting never reorders topics or partitions: the topic at each place
/// keeps its name, and the partition at each place keeps its index and
/// error code and is the rewriting of the partition that stood there.
pub proof fn lemma_rewrite_keeps_order(fetch: FetchView, replacement: Seq<u8>, t: int, p: int)
    requires
        0 <= t < fetch.responses.len(),
        0 <= p < fetch.responses[t].partitions.len(),
    ensures
        rewritten_fetch(fetch, replacement).responses[t].topic == fetch.responses[t].topic,
        rewritten_fetch(fetch, replacement).responses[t].partitions[p] == rewritten_partition(
            fetch.responses[t].partitions[p],
            replacement,
        ),
        rewritten_fetch(fetch, replacement).responses[t].partitions[p].partition_index
            == fetch.responses[t].partitions[p].partition_index,
        rewritten_fetch(fetch, replacement).responses[t].partitions[p].error_code
            == fetch.responses[t].partitions[p].error_code,
{
}

/// Fail-open: a partition whose bytes do not decode, or whose rewritten
/// records do not encode, comes back as it went in, and so does a partition
/// without records.
pub proof fn lemma_fail_open(partition: PartitionView, replacement: Seq<u8>)
    requires
        match partition.records {
            Some(bytes) => decode_outcome(bytes) is Err || encode_outcome(
                rewritten_records(decode_outcome(bytes)->Ok_0, replacement),
                REWRITE_VERSION,
                Compression::Uncompressed,
            ) is Err,
            None => true,
        },
    ensures
        rewritten_partition(partition, replacement) == partition,
{
}

/// A failure in one partition has no effect on another: what becomes of a
/// partition depends on that partition and the replacement alone, whatever
/// stands beside it.
pub proof fn lemma_partitions_are_independent(
    first: TopicView,
    second: TopicView,
    replacement: Seq<u8>,
    i: int,
    j: int,
)
    requires
        0 <= i < first.partitions.len(),
        0 <= j < second.partitions.len(),
        first.partitions[i] == second.partitions[j],
    ensures
        rewritten_topic(first, replacement).partitions[i] == rewritten_topic(
            second,
            replacement,
        ).partitions[j],
{
}

} // verus!
