use kafka_protocol::records as kafka;
use response_rewrite::codec::{
    all_headers_distinct, begins_with, classify_decode_failure, classify_encode_failure,
    differences_fit, DecodeError, EncodeError, RecordBatchCodec,
};
use response_rewrite::record::{
    Compression, LogicalRecord, RecordHeader, TimestampType, NO_PARTITION_LEADER_EPOCH,
    NO_PRODUCER_EPOCH, NO_PRODUCER_ID, NO_SEQUENCE, NO_TIMESTAMP,
};

fn record(key: Option<&str>, value: Option<&str>) -> LogicalRecord {
    LogicalRecord::new(
        key.map(|k| k.as_bytes().to_vec()),
        value.map(|v| v.as_bytes().to_vec()),
    )
}

fn header(key: &str, value: Option<&str>) -> RecordHeader {
    RecordHeader { key: key.to_string(), value: value.map(|v| v.as_bytes().to_vec()) }
}

/// One legacy message, version 0: key `k1`, value `a`.
fn legacy_message() -> Vec<u8> {
    vec![
        0, 0, 0, 0, 0, 0, 0, 0, 0, 0, 0, 17, 40, 104, 237, 103, 0, 0, 0, 0, 0, 2, 107, 49, 0, 0,
        0, 1, 97,
    ]
}

#[test]
fn new_record_has_no_metadata() {
    let r = record(Some("k"), None);
    assert_eq!(r.key, Some(b"k".to_vec()));
    assert_eq!(r.value, None);
    assert!(r.headers.is_empty());
    assert!(!r.transactional);
    assert!(!r.control);
    assert_eq!(r.partition_leader_epoch, NO_PARTITION_LEADER_EPOCH);
    assert_eq!(r.producer_id, NO_PRODUCER_ID);
    assert_eq!(r.producer_epoch, NO_PRODUCER_EPOCH);
    assert_eq!(r.timestamp_type, TimestampType::Creation);
    assert_eq!(r.offset, 0);
    assert_eq!(r.sequence, NO_SEQUENCE);
    assert_eq!(r.timestamp, NO_TIMESTAMP);
    assert_eq!(NO_PRODUCER_ID, -1);
    assert_eq!(NO_TIMESTAMP, -1);
}

#[test]
fn has_value_tells_tombstones_apart() {
    assert!(record(None, Some("")).has_value());
    assert!(record(None, Some("v")).has_value());
    assert!(!record(Some("k"), None).has_value());
}

#[test]
fn replace_value_keeps_presence() {
    let mut present = record(Some("k"), Some("old"));
    present.replace_value(b"new");
    assert_eq!(present, record(Some("k"), Some("new")));

    let mut empty = record(Some("k"), Some(""));
    empty.replace_value(b"new");
    assert_eq!(empty.value, Some(b"new".to_vec()));

    let mut absent = record(Some("k"), None);
    absent.replace_value(b"new");
    assert_eq!(absent, record(Some("k"), None));
}

#[test]
fn distinct_header_keys_are_recognised() {
    let mut r = record(None, None);
    assert!(r.has_distinct_header_keys());
    r.headers.push(header("a", Some("1")));
    r.headers.push(header("b", Some("1")));
    r.headers.push(header("A", None));
    assert!(r.has_distinct_header_keys());
    r.headers.push(header("b", Some("2")));
    assert!(!r.has_distinct_header_keys());
}

#[test]
fn all_headers_distinct_looks_at_every_record() {
    let mut first = record(None, None);
    first.headers.push(header("a", None));
    let mut second = record(None, None);
    second.headers.push(header("a", None));
    assert!(all_headers_distinct(&vec![]));
    // The same name on two records is no clash.
    assert!(all_headers_distinct(&vec![first.clone(), second.clone()]));
    second.headers.push(header("a", Some("x")));
    assert!(!all_headers_distinct(&vec![first, second]));
}

#[test]
fn differences_fit_at_the_limit() {
    let at = |offset: i64, timestamp: i64| {
        let mut r = record(None, None);
        r.offset = offset;
        r.timestamp = timestamp;
        r
    };
    assert!(differences_fit(&vec![]));
    assert!(differences_fit(&vec![at(i64::MIN, i64::MAX)]));
    assert!(differences_fit(&vec![at(0, 0), at(i64::MAX, 0)]));
    assert!(differences_fit(&vec![at(-1, 5), at(i64::MAX - 1, 7), at(3, 6)]));
    assert!(!differences_fit(&vec![at(-1, 0), at(i64::MAX, 0)]));
    assert!(!differences_fit(&vec![at(0, i64::MAX), at(0, 0), at(0, -1)]));
    assert!(!differences_fit(&vec![at(i64::MIN, 0), at(i64::MAX, 0)]));
}

#[test]
fn begins_with_compares_prefixes() {
    assert!(begins_with(b"", b""));
    assert!(begins_with(b"abc", b""));
    assert!(begins_with(b"abc", b"ab"));
    assert!(begins_with(b"abc", b"abc"));
    assert!(!begins_with(b"abc", b"abcd"));
    assert!(!begins_with(b"abc", b"b"));
    assert!(!begins_with(b"abc", b"aB"));
    assert!(!begins_with(b"", b"a"));
}

#[test]
fn decode_failures_are_classified() {
    assert_eq!(
        classify_decode_failure("Unknown compression algorithm used: 7"),
        DecodeError::UnsupportedCodec
    );
    assert_eq!(
        classify_decode_failure("Support for Zstd is not enabled as a cargo feature"),
        DecodeError::UnsupportedCodec
    );
    assert_eq!(
        classify_decode_failure("Unknown record batch version (9)"),
        DecodeError::UnsupportedVersion
    );
    assert_eq!(
        classify_decode_failure("Cyclic redundancy check failed (1 != 2)"),
        DecodeError::BadChecksum
    );
    assert_eq!(
        classify_decode_failure("Not enough bytes remaining in buffer!\n"),
        DecodeError::Truncated
    );
    assert_eq!(
        classify_decode_failure("Unexpected negative record size: -1"),
        DecodeError::Malformed
    );
    assert_eq!(classify_decode_failure(""), DecodeError::Malformed);
    assert_eq!(classify_decode_failure("unknown compression algorithm"), DecodeError::Malformed);
}

#[test]
fn encode_failures_are_classified() {
    assert_eq!(
        classify_encode_failure("Unknown record batch version"),
        EncodeError::UnsupportedVersion
    );
    assert_eq!(
        classify_encode_failure(
            "Transactional and control records are not supported in this version of the protocol!"
        ),
        EncodeError::UnsupportedRecord
    );
    assert_eq!(
        classify_encode_failure("Record headers are not supported in this version of the protocol!"),
        EncodeError::UnsupportedRecord
    );
    assert_eq!(
        classify_encode_failure("Compression algorithm 'Zstd' is unsupported for record version '0'"),
        EncodeError::UnsupportedCodec
    );
    assert_eq!(
        classify_encode_failure("Support for Gzip is not enabled as a cargo feature"),
        EncodeError::UnsupportedCodec
    );
    assert_eq!(
        classify_encode_failure("Too many records to encode in one batch (3 records)"),
        EncodeError::Rejected
    );
    assert_eq!(classify_encode_failure(""), EncodeError::Rejected);
}

#[test]
fn decode_of_nothing_is_no_records() {
    assert_eq!(RecordBatchCodec::decode(&[]), Ok(vec![]));
}

#[test]
fn encode_of_no_records_is_nothing() {
    assert_eq!(RecordBatchCodec::encode(&vec![], 0, Compression::Uncompressed), Ok(vec![]));
    assert_eq!(RecordBatchCodec::encode(&vec![], 2, Compression::Uncompressed), Ok(vec![]));
}

#[test]
fn legacy_encoding_is_exact() {
    let encoded =
        RecordBatchCodec::encode(&vec![record(Some("k1"), Some("a"))], 0, Compression::Uncompressed);
    assert_eq!(encoded, Ok(legacy_message()));

    let tombstone = RecordBatchCodec::encode(&vec![record(None, None)], 0, Compression::Uncompressed);
    assert_eq!(
        tombstone,
        Ok(vec![
            0, 0, 0, 0, 0, 0, 0, 0, 0, 0, 0, 14, 167, 236, 104, 3, 0, 0, 255, 255, 255, 255, 255,
            255, 255, 255,
        ])
    );
}

#[test]
fn legacy_decoding_is_exact() {
    assert_eq!(
        RecordBatchCodec::decode(&legacy_message()),
        Ok(vec![record(Some("k1"), Some("a"))])
    );
    let mut two = legacy_message();
    two.extend_from_slice(&legacy_message());
    assert_eq!(
        RecordBatchCodec::decode(&two),
        Ok(vec![record(Some("k1"), Some("a")), record(Some("k1"), Some("a"))])
    );
}

#[test]
fn round_trip_keeps_count_order_and_presence() {
    let records = vec![
        record(Some("k1"), Some("a")),
        record(Some("k2"), None),
        record(None, Some("b")),
        record(None, None),
        record(Some(""), Some("")),
        record(Some("k1"), Some("a")),
    ];
    let legacy = RecordBatchCodec::encode(&records, 0, Compression::Uncompressed).unwrap();
    assert_eq!(RecordBatchCodec::decode(&legacy), Ok(records.clone()));

    let current = RecordBatchCodec::encode(&records, 2, Compression::Uncompressed).unwrap();
    let decoded = RecordBatchCodec::decode(&current).unwrap();
    assert_eq!(decoded.len(), records.len());
    for (before, after) in records.iter().zip(decoded.iter()) {
        assert_eq!(before.key, after.key);
        assert_eq!(before.value, after.value);
    }
}

#[test]
fn round_trip_of_version_two_keeps_every_field() {
    let mut first = record(Some("k1"), Some("v1"));
    first.transactional = true;
    first.partition_leader_epoch = 7;
    first.producer_id = 99;
    first.producer_epoch = 3;
    first.offset = 1000;
    first.sequence = 40;
    first.timestamp = 1_700_000_000_000;
    first.headers.push(header("trace", Some("abc")));
    first.headers.push(header("empty", Some("")));
    let mut second = record(None, None);
    second.transactional = true;
    second.partition_leader_epoch = 7;
    second.producer_id = 99;
    second.producer_epoch = 3;
    second.offset = 1001;
    second.sequence = 41;
    second.timestamp = 1_700_000_000_005;
    let records = vec![first, second];

    for compression in [
        Compression::Uncompressed,
        Compression::Gzip,
        Compression::Snappy,
        Compression::Lz4,
        Compression::Zstd,
    ] {
        let encoded = RecordBatchCodec::encode(&records, 2, compression).unwrap();
        assert_eq!(RecordBatchCodec::decode(&encoded), Ok(records.clone()));
    }
}

#[test]
fn version_one_keeps_timestamps() {
    let mut r = record(Some("k"), Some("v"));
    r.timestamp = 1234;
    let encoded = RecordBatchCodec::encode(&vec![r.clone()], 1, Compression::Uncompressed).unwrap();
    assert_eq!(RecordBatchCodec::decode(&encoded), Ok(vec![r]));
}

#[test]
fn decode_agrees_with_the_outside_encoder() {
    let outside = kafka::Record {
        transactional: false,
        control: true,
        partition_leader_epoch: 2,
        producer_id: 5,
        producer_epoch: 1,
        timestamp_type: kafka::TimestampType::Creation,
        offset: 12,
        sequence: 3,
        timestamp: 77,
        key: Some(bytes::Bytes::from_static(b"key")),
        value: None,
        headers: [(
            kafka_protocol::protocol::StrBytes::from_static_str("h"),
            Some(bytes::Bytes::from_static(b"x")),
        )]
        .into_iter()
        .collect(),
    };
    let mut buf = bytes::BytesMut::new();
    kafka::RecordBatchEncoder::encode(
        &mut buf,
        [&outside],
        &kafka::RecordEncodeOptions { version: 2, compression: kafka::Compression::None },
        None::<fn(&mut bytes::BytesMut, &mut bytes::BytesMut, kafka::Compression) -> anyhow::Result<()>>,
    )
    .unwrap();

    let mut expected = record(Some("key"), None);
    expected.control = true;
    expected.partition_leader_epoch = 2;
    expected.producer_id = 5;
    expected.producer_epoch = 1;
    expected.offset = 12;
    expected.sequence = 3;
    expected.timestamp = 77;
    expected.headers.push(header("h", Some("x")));
    assert_eq!(RecordBatchCodec::decode(&buf), Ok(vec![expected.clone()]));
    assert_eq!(
        RecordBatchCodec::encode(&vec![expected], 2, Compression::Uncompressed),
        Ok(buf.to_vec())
    );
}

#[test]
fn truncated_buffer_is_refused() {
    assert_eq!(RecordBatchCodec::decode(&[0, 0, 0]), Err(DecodeError::Truncated));
    let message = legacy_message();
    assert_eq!(
        RecordBatchCodec::decode(&message[..message.len() - 1]),
        Err(DecodeError::Truncated)
    );
}

#[test]
fn unknown_version_is_refused() {
    let mut bytes = vec![0u8; 17];
    bytes[16] = 9;
    assert_eq!(RecordBatchCodec::decode(&bytes), Err(DecodeError::UnsupportedVersion));
}

#[test]
fn bad_checksum_is_refused() {
    let mut message = legacy_message();
    let last = message.len() - 1;
    message[last] ^= 0xff;
    assert_eq!(RecordBatchCodec::decode(&message), Err(DecodeError::BadChecksum));

    let mut batch =
        RecordBatchCodec::encode(&vec![record(Some("k"), Some("v"))], 2, Compression::Uncompressed)
            .unwrap();
    let last = batch.len() - 1;
    batch[last] ^= 0xff;
    assert_eq!(RecordBatchCodec::decode(&batch), Err(DecodeError::BadChecksum));
}

#[test]
fn unknown_codec_is_refused() {
    // A version 0 message with a valid checksum whose attributes name codec 3.
    let message = vec![
        0, 0, 0, 0, 0, 0, 0, 0, 0, 0, 0, 14, 158, 97, 84, 198, 0, 3, 255, 255, 255, 255, 255, 255,
        255, 255,
    ];
    assert_eq!(RecordBatchCodec::decode(&message), Err(DecodeError::UnsupportedCodec));
}

#[test]
fn negative_size_is_refused() {
    let mut bytes = vec![0u8; 17];
    bytes[8] = 0xff;
    bytes[9] = 0xff;
    bytes[10] = 0xff;
    bytes[11] = 0xff;
    assert_eq!(RecordBatchCodec::decode(&bytes), Err(DecodeError::Malformed));
}

#[test]
fn duplicate_header_keys_are_refused() {
    let mut r = record(Some("k"), Some("v"));
    r.headers.push(header("h", Some("1")));
    r.headers.push(header("h", Some("2")));
    assert_eq!(
        RecordBatchCodec::encode(&vec![r.clone()], 2, Compression::Uncompressed),
        Err(EncodeError::DuplicateHeaderKey)
    );
    assert_eq!(
        RecordBatchCodec::encode(&vec![r], 0, Compression::Uncompressed),
        Err(EncodeError::DuplicateHeaderKey)
    );
}

#[test]
fn too_wide_a_range_is_refused_in_version_two() {
    let mut low = record(None, Some("v"));
    low.offset = -1;
    let mut high = record(None, Some("v"));
    high.offset = i64::MAX;
    let records = vec![low, high];
    assert_eq!(
        RecordBatchCodec::encode(&records, 2, Compression::Uncompressed),
        Err(EncodeError::RangeTooWide)
    );
    // The legacy format does not store offsets relative to one another.
    assert!(RecordBatchCodec::encode(&records, 0, Compression::Uncompressed).is_ok());
}

#[test]
fn unknown_version_cannot_be_encoded() {
    let records = vec![record(None, Some("v"))];
    assert_eq!(
        RecordBatchCodec::encode(&records, 3, Compression::Uncompressed),
        Err(EncodeError::UnsupportedVersion)
    );
    assert_eq!(
        RecordBatchCodec::encode(&records, -1, Compression::Uncompressed),
        Err(EncodeError::UnsupportedVersion)
    );
}

#[test]
fn legacy_format_cannot_express_headers_or_transactions() {
    let mut with_header = record(None, Some("v"));
    with_header.headers.push(header("h", Some("1")));
    assert_eq!(
        RecordBatchCodec::encode(&vec![with_header], 0, Compression::Uncompressed),
        Err(EncodeError::UnsupportedRecord)
    );
    let mut transactional = record(None, Some("v"));
    transactional.transactional = true;
    assert_eq!(
        RecordBatchCodec::encode(&vec![transactional], 1, Compression::Uncompressed),
        Err(EncodeError::UnsupportedRecord)
    );
}

#[test]
fn legacy_format_does_not_know_zstd() {
    assert_eq!(
        RecordBatchCodec::encode(&vec![record(None, Some("v"))], 0, Compression::Zstd),
        Err(EncodeError::UnsupportedCodec)
    );
}

#[test]
fn far_apart_timestamps_are_rejected() {
    let mut early = record(None, Some("v"));
    early.timestamp = 0;
    let mut late = record(None, Some("v"));
    late.timestamp = 1 << 40;
    assert_eq!(
        RecordBatchCodec::encode(&vec![early, late], 2, Compression::Uncompressed),
        Err(EncodeError::Rejected)
    );
}
