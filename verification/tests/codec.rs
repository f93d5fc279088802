use bytes::{Bytes, BytesMut};
use kacrab_protocol::error::{Error, UnsupportedFieldVersion, UnsupportedVersion};
use kacrab_protocol::ints::{read_i16, read_i32, read_i64, write_i16, write_i32, write_i64};
use kacrab_protocol::messages::describe_topic_partitions_response::DescribeTopicPartitionsResponseData;
use kacrab_protocol::messages::end_txn_response::EndTxnResponseData;
use kacrab_protocol::messages::fetch_request::{FetchPartition, FetchRequestData, FetchTopic, ReplicaState};
use kacrab_protocol::messages::fetch_snapshot_request::FetchSnapshotRequestData;
use kacrab_protocol::strings::{
    read_compact_nullable_string, read_compact_string, read_string, write_compact_nullable_string,
    write_compact_string, write_string,
};
use kacrab_protocol::tagged::{read_tagged_fields, sort_by_tag, write_tagged_fields};
use kacrab_protocol::types::{KafkaString, KafkaUuid, RawTaggedField};
use kacrab_protocol::varint::{read_unsigned_varint, unsigned_varint_len, write_unsigned_varint};

fn kstr(s: &str) -> KafkaString {
    KafkaString::from_vec(s.as_bytes().to_vec())
}

fn frozen(b: BytesMut) -> Bytes {
    b.freeze()
}

#[test]
fn integers_are_big_endian() {
    let mut b = BytesMut::new();
    write_i16(&mut b, 0x0102);
    write_i32(&mut b, -2);
    write_i64(&mut b, 0x0102030405060708);
    assert_eq!(
        &b[..],
        &[1, 2, 0xff, 0xff, 0xff, 0xfe, 1, 2, 3, 4, 5, 6, 7, 8][..]
    );
    let mut r = frozen(b);
    assert_eq!(read_i16(&mut r), Ok(0x0102));
    assert_eq!(read_i32(&mut r), Ok(-2));
    assert_eq!(read_i64(&mut r), Ok(0x0102030405060708));
    assert_eq!(r.len(), 0);
}

#[test]
fn short_input_is_unexpected_eof() {
    let mut r = Bytes::from_static(&[0, 1, 2]);
    assert_eq!(read_i32(&mut r), Err(Error::UnexpectedEof));
    let mut r = Bytes::new();
    assert_eq!(read_i16(&mut r), Err(Error::UnexpectedEof));
}

#[test]
fn unsigned_varints() {
    let mut b = BytesMut::new();
    write_unsigned_varint(&mut b, 0);
    write_unsigned_varint(&mut b, 127);
    write_unsigned_varint(&mut b, 128);
    write_unsigned_varint(&mut b, 300);
    write_unsigned_varint(&mut b, u32::MAX);
    assert_eq!(
        &b[..],
        &[0, 0x7f, 0x80, 0x01, 0xac, 0x02, 0xff, 0xff, 0xff, 0xff, 0x0f][..]
    );
    assert_eq!(unsigned_varint_len(0), 1);
    assert_eq!(unsigned_varint_len(128), 2);
    assert_eq!(unsigned_varint_len(u32::MAX), 5);
    let mut r = frozen(b);
    assert_eq!(read_unsigned_varint(&mut r), Ok(0));
    assert_eq!(read_unsigned_varint(&mut r), Ok(127));
    assert_eq!(read_unsigned_varint(&mut r), Ok(128));
    assert_eq!(read_unsigned_varint(&mut r), Ok(300));
    assert_eq!(read_unsigned_varint(&mut r), Ok(u32::MAX));
}

#[test]
fn overlong_varint_is_refused() {
    let mut r = Bytes::from_static(&[0x80, 0x80, 0x80, 0x80, 0x80, 0x01]);
    assert_eq!(read_unsigned_varint(&mut r), Err(Error::InvalidVarint));
    let mut r = Bytes::from_static(&[0x80]);
    assert_eq!(read_unsigned_varint(&mut r), Err(Error::UnexpectedEof));
}

#[test]
fn strings() {
    let mut b = BytesMut::new();
    write_string(&mut b, &kstr("abc")).unwrap();
    write_compact_string(&mut b, &kstr("xy")).unwrap();
    write_compact_nullable_string(&mut b, &None).unwrap();
    assert_eq!(&b[..], &[0, 3, b'a', b'b', b'c', 3, b'x', b'y', 0][..]);
    let mut r = frozen(b);
    assert_eq!(read_string(&mut r), Ok(kstr("abc")));
    assert_eq!(read_compact_string(&mut r), Ok(kstr("xy")));
    assert_eq!(read_compact_nullable_string(&mut r), Ok(None));
}

#[test]
fn null_where_none_is_allowed() {
    let mut r = Bytes::from_static(&[0xff, 0xff]);
    assert_eq!(read_string(&mut r), Err(Error::NullNotAllowed));
    let mut r = Bytes::from_static(&[0]);
    assert_eq!(read_compact_string(&mut r), Err(Error::NullNotAllowed));
}

#[test]
fn too_long_string_is_refused() {
    let long = KafkaString::from_vec(vec![b'a'; 0x8000]);
    let mut b = BytesMut::new();
    assert_eq!(write_string(&mut b, &long), Err(Error::ValueTooLong));
    let ok = KafkaString::from_vec(vec![b'a'; 0x7fff]);
    assert_eq!(write_string(&mut b, &ok), Ok(()));
    assert_eq!(b.len(), 2 + 0x7fff);
}

#[test]
fn tagged_fields_are_sorted_stably() {
    let fields = vec![
        RawTaggedField { tag: 5, data: Bytes::from_static(&[1]) },
        RawTaggedField { tag: 1, data: Bytes::from_static(&[2]) },
        RawTaggedField { tag: 5, data: Bytes::from_static(&[3]) },
        RawTaggedField { tag: 0, data: Bytes::from_static(&[]) },
    ];
    let sorted = sort_by_tag(&fields);
    let tags: Vec<(u32, Vec<u8>)> = sorted.iter().map(|f| (f.tag, f.data.to_vec())).collect();
    assert_eq!(tags, vec![(0, vec![]), (1, vec![2]), (5, vec![1]), (5, vec![3])]);
    let mut b = BytesMut::new();
    write_tagged_fields(&mut b, &sorted).unwrap();
    assert_eq!(&b[..], &[4, 0, 0, 1, 1, 2, 5, 1, 1, 5, 1, 3][..]);
    let mut r = frozen(b);
    assert_eq!(read_tagged_fields(&mut r).unwrap(), sorted);
}

#[test]
fn end_txn_response_round_trip() {
    let m = EndTxnResponseData::default()
        .with_throttle_time_ms(7)
        .with_error_code(3)
        .with_producer_id(99)
        .with_producer_epoch(2);
    for v in [5i16] {
        let mut b = BytesMut::new();
        m.write(&mut b, v).unwrap();
        assert_eq!(m.encoded_len(v), Ok(b.len()));
        let mut r = frozen(b);
        assert_eq!(EndTxnResponseData::read(&mut r, v), Ok(m.clone()));
        assert_eq!(r.len(), 0);
    }
    let mut b = BytesMut::new();
    m.write(&mut b, 5).unwrap();
    assert_eq!(
        &b[..],
        &[0, 0, 0, 7, 0, 3, 0, 0, 0, 0, 0, 0, 0, 99, 0, 2, 0][..]
    );
}

#[test]
fn end_txn_response_versions() {
    let m = EndTxnResponseData::default().with_throttle_time_ms(1);
    let mut b = BytesMut::new();
    assert_eq!(
        m.write(&mut b, 6),
        Err(Error::UnsupportedVersion(UnsupportedVersion::new(26, 6)))
    );
    assert_eq!(
        m.write(&mut b, -1),
        Err(Error::UnsupportedVersion(UnsupportedVersion::new(26, -1)))
    );
    let mut r = Bytes::from_static(&[0, 0, 0, 0, 0, 0]);
    assert_eq!(
        EndTxnResponseData::read(&mut r, 9),
        Err(Error::UnsupportedVersion(UnsupportedVersion::new(26, 9)))
    );
    // version 0 carries neither the producer id nor the tagged fields
    let mut b = BytesMut::new();
    m.write(&mut b, 0).unwrap();
    assert_eq!(&b[..], &[0, 0, 0, 1, 0, 0][..]);
    let mut r = frozen(b);
    assert_eq!(EndTxnResponseData::read(&mut r, 0), Ok(m.clone()));
    let with_id = m.clone().with_producer_id(5);
    let mut b = BytesMut::new();
    assert_eq!(
        with_id.write(&mut b, 0),
        Err(Error::UnsupportedFieldVersion(UnsupportedFieldVersion::new(26, "producer_id", 0)))
    );
    assert_eq!(
        with_id.encoded_len(0),
        Err(Error::UnsupportedFieldVersion(UnsupportedFieldVersion::new(26, "producer_id", 0)))
    );
}

#[test]
fn truncated_message_is_unexpected_eof() {
    let mut r = Bytes::from_static(&[0, 0, 0, 7, 0]);
    assert_eq!(EndTxnResponseData::read(&mut r, 0), Err(Error::UnexpectedEof));
}

fn sample_fetch() -> FetchRequestData {
    let partition = FetchPartition::default()
        .with_partition(3)
        .with_fetch_offset(100)
        .with_partition_max_bytes(1024);
    let topic = FetchTopic::default()
        .with_topic(kstr("t"))
        .with_topic_id(KafkaUuid { most_significant_bits: 1, least_significant_bits: 2 })
        .with_partitions(vec![partition]);
    FetchRequestData::default()
        .with_max_wait_ms(500)
        .with_min_bytes(1)
        .with_max_bytes(1 << 20)
        .with_topics(vec![topic])
}

#[test]
fn fetch_request_round_trip_in_each_version() {
    for v in 4i16..=18 {
        let mut m = sample_fetch();
        if v < 13 {
            m.topics[0].topic_id = KafkaUuid::zero();
        } else {
            m.topics[0].topic = KafkaString::default();
        }
        let mut b = BytesMut::new();
        m.write(&mut b, v).unwrap();
        assert_eq!(m.encoded_len(v), Ok(b.len()), "version {}", v);
        let mut r = frozen(b);
        assert_eq!(FetchRequestData::read(&mut r, v), Ok(m.clone()), "version {}", v);
        assert_eq!(r.len(), 0);
    }
}

#[test]
fn fetch_request_known_tagged_fields() {
    let mut m = sample_fetch();
    m.topics[0].topic = KafkaString::default();
    let m = m
        .with_cluster_id(Some(kstr("c")))
        .with_replica_state(ReplicaState::default().with_replica_id(4).with_replica_epoch(9));
    let mut with_unknown = m.clone();
    with_unknown._unknown_tagged_fields = vec![RawTaggedField { tag: 7, data: Bytes::from_static(&[1, 2]) }];
    let mut b = BytesMut::new();
    with_unknown.write(&mut b, 15).unwrap();
    assert_eq!(with_unknown.encoded_len(15), Ok(b.len()));
    // the tagged fields close the message: tag 0 (cluster id), tag 1 (replica state), tag 7
    let n = b.len();
    let tail = &b[n - 24..];
    assert_eq!(
        tail,
        &[3, 0, 2, 2, b'c', 1, 13, 0, 0, 0, 4, 0, 0, 0, 0, 0, 0, 0, 9, 0, 7, 2, 1, 2][..]
    );
    let mut r = frozen(b);
    assert_eq!(FetchRequestData::read(&mut r, 15), Ok(with_unknown.clone()));
    // before version 15 the replica state is not written
    let mut b = BytesMut::new();
    m.write(&mut b, 14).unwrap();
    let mut r = frozen(b);
    assert_eq!(
        FetchRequestData::read(&mut r, 14),
        Ok(m.clone().with_replica_state(ReplicaState::default()))
    );
}

#[test]
fn fetch_partition_high_watermark_tag() {
    let p = FetchPartition::default().with_partition(1).with_high_watermark(42);
    let mut b = BytesMut::new();
    p.write(&mut b, 18).unwrap();
    assert_eq!(p.encoded_len(18), Ok(b.len()));
    let mut r = frozen(b);
    assert_eq!(FetchPartition::read(&mut r, 18), Ok(p.clone()));
    // at the default value, no tagged field is written
    let d = FetchPartition::default().with_partition(1);
    let mut b1 = BytesMut::new();
    d.write(&mut b1, 18).unwrap();
    assert_eq!(*b1.last().unwrap(), 0);
}

#[test]
fn fetch_snapshot_request_cluster_id() {
    let m = FetchSnapshotRequestData::default().with_cluster_id(Some(kstr("id")));
    let mut b = BytesMut::new();
    m.write(&mut b, 1).unwrap();
    assert_eq!(m.encoded_len(1), Ok(b.len()));
    let mut r = frozen(b);
    assert_eq!(FetchSnapshotRequestData::read(&mut r, 1), Ok(m.clone()));
}

#[test]
fn compact_length_beyond_the_limit_is_invalid() {
    // a compact string whose length (0x8000) is above the limit for strings
    let mut r = Bytes::from_static(&[0x81, 0x80, 0x02]);
    assert_eq!(read_compact_string(&mut r), Err(Error::InvalidLength));
}

#[test]
fn kafka_string_accessors() {
    let s = kstr("hello");
    assert_eq!(s.len(), 5);
    assert!(!s.is_empty());
    assert_eq!(&s.as_bytes()[..], b"hello");
    assert!(KafkaString::default().is_empty());
    assert!(KafkaUuid::zero().is_nil());
    assert!(!KafkaUuid { most_significant_bits: 0, least_significant_bits: 1 }.is_nil());
}

#[test]
fn refused_version_consumes_nothing() {
    let mut b = Bytes::from_static(&[0, 0, 0, 0, 1, 0xFF, 0]);
    let mut c = b.clone();
    assert_eq!(
        DescribeTopicPartitionsResponseData::read(&mut b, 0),
        Ok(DescribeTopicPartitionsResponseData::default())
    );
    assert!(b.is_empty());
    assert_eq!(
        DescribeTopicPartitionsResponseData::read(&mut c, 1),
        Err(Error::UnsupportedVersion(UnsupportedVersion::new(75, 1)))
    );
    assert_eq!(c.len(), 7);
}

#[test]
fn failed_read_stops_inside_the_input() {
    // throttle time and error code are there, the producer id is cut short
    let mut r = Bytes::from_static(&[0, 0, 0, 7, 0, 3, 0, 0, 0]);
    assert_eq!(EndTxnResponseData::read(&mut r, 5), Err(Error::UnexpectedEof));
    assert!(r.len() <= 9);
}

#[test]
fn clones_are_equal() {
    let mut m = sample_fetch().with_cluster_id(Some(kstr("c")));
    m.topics[0].topic = KafkaString::default();
    let c = m.clone();
    assert_eq!(c, m);
    let mut b1 = BytesMut::new();
    let mut b2 = BytesMut::new();
    m.write(&mut b1, 15).unwrap();
    c.write(&mut b2, 15).unwrap();
    assert_eq!(&b1[..], &b2[..]);
}

#[test]
fn fetch_request_fails_only_on_fields_the_version_cannot_carry() {
    let mut m = sample_fetch();
    m.topics[0].topic = KafkaString::default();
    assert!(m.encoded_len(15).is_ok());
    let with_replica = m.clone().with_replica_id(3);
    assert_eq!(
        with_replica.encoded_len(15),
        Err(Error::UnsupportedFieldVersion(UnsupportedFieldVersion::new(1, "replica_id", 15)))
    );
    assert!(with_replica.encoded_len(14).is_ok());
    let mut old = sample_fetch();
    old.topics[0].topic_id = KafkaUuid::zero();
    assert!(old.encoded_len(6).is_ok());
    let with_session = old.clone().with_session_id(9);
    assert!(with_session.encoded_len(6).is_err());
    assert!(with_session.encoded_len(7).is_ok());
    // known tagged fields never make a write fail
    let tagged = m.clone().with_cluster_id(Some(kstr("x"))).with_replica_state(ReplicaState::default().with_replica_id(1));
    assert!(tagged.encoded_len(15).is_ok());
    assert!(tagged.encoded_len(13).is_ok());
    assert_eq!(sample_fetch().encoded_len(19), Err(Error::UnsupportedVersion(UnsupportedVersion::new(1, 19))));
}
