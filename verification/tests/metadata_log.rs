use minibroker::error::DecodeError;
use minibroker::metadata::read_topic_index;

fn put_u32(out: &mut Vec<u8>, v: u32) {
    out.extend_from_slice(&v.to_be_bytes());
}

fn put_uvarint(out: &mut Vec<u8>, mut v: u32) {
    while v >= 0x80 {
        out.push(((v % 0x80) + 0x80) as u8);
        v /= 0x80;
    }
    out.push(v as u8);
}

fn put_zigzag(out: &mut Vec<u8>, v: i32) {
    put_uvarint(out, ((v << 1) ^ (v >> 31)) as u32);
}

/// A record body: attributes, zero deltas, null key, and the given value.
fn record(value: &[u8]) -> Vec<u8> {
    let mut body = Vec::new();
    body.push(0u8); // attributes
    put_zigzag(&mut body, 0); // timestamp delta
    put_zigzag(&mut body, 0); // offset delta
    put_zigzag(&mut body, -1); // null key
    put_zigzag(&mut body, value.len() as i32);
    body.extend_from_slice(value);
    put_zigzag(&mut body, 0); // no headers
    body
}

/// A topic-record value: frame version, type 2, version, compact name, id.
fn topic_value(name: &str, id: [u8; 16]) -> Vec<u8> {
    let mut v = vec![1u8, 2u8, 0u8];
    put_uvarint(&mut v, name.len() as u32 + 1);
    v.extend_from_slice(name.as_bytes());
    v.extend_from_slice(&id);
    v.push(0u8); // tagged fields
    v
}

/// A partition-record value: frame version, type 3, version, index, id.
fn partition_value(partition_id: i32, topic_id: [u8; 16]) -> Vec<u8> {
    let mut v = vec![1u8, 3u8, 0u8];
    v.extend_from_slice(&partition_id.to_be_bytes());
    v.extend_from_slice(&topic_id);
    v
}

/// Frame record bodies into one batch with the standard 61-byte prefix.
fn batch(records: &[Vec<u8>]) -> Vec<u8> {
    let mut recs = Vec::new();
    for r in records {
        put_zigzag(&mut recs, r.len() as i32);
        recs.extend_from_slice(r);
    }
    let mut body = vec![0u8; 45]; // leader epoch .. base sequence
    put_u32(&mut body, records.len() as u32);
    body.extend_from_slice(&recs);
    let mut out = vec![0u8; 8]; // base offset
    put_u32(&mut out, body.len() as u32);
    out.extend_from_slice(&body);
    out
}

const ID_A: [u8; 16] = [0xaa; 16];
const ID_B: [u8; 16] = [0xbb; 16];

#[test]
fn test_read_topic_index_basic() {
    let log = batch(&[
        record(&topic_value("foo", ID_A)),
        record(&partition_value(0, ID_A)),
        record(&partition_value(1, ID_A)),
    ]);
    let ix = read_topic_index(&log).unwrap();
    assert_eq!(ix.topics.len(), 1);
    assert_eq!(ix.topics[0].name, b"foo".to_vec());
    assert_eq!(ix.topics[0].topic_id, ID_A.to_vec());
    assert_eq!(ix.topics[0].partitions, vec![0, 1]);
}

#[test]
fn test_read_topic_index_idempotent() {
    let log = batch(&[
        record(&topic_value("foo", ID_A)),
        record(&partition_value(3, ID_A)),
    ]);
    let a = read_topic_index(&log).unwrap();
    let b = read_topic_index(&log).unwrap();
    assert_eq!(a, b);
}

#[test]
fn test_empty_log_gives_empty_index() {
    let ix = read_topic_index(&Vec::new()).unwrap();
    assert_eq!(ix.topics.len(), 0);
}

#[test]
fn test_corrupt_log_is_hard_error() {
    assert_eq!(read_topic_index(&vec![1, 2, 3]), Err(DecodeError::CorruptLog));
}

#[test]
fn test_truncated_batch_is_hard_error() {
    let mut log = batch(&[record(&topic_value("foo", ID_A)), record(&partition_value(0, ID_A))]);
    log.pop();
    assert_eq!(read_topic_index(&log), Err(DecodeError::CorruptLog));
}

#[test]
fn test_malformed_record_inside_batch_is_skipped() {
    // The second record's value is garbage: it is treated as an ignored
    // record, not an error, and contributes no partition.
    let log = batch(&[
        record(&topic_value("foo", ID_A)),
        record(&[9u8, 9u8, 9u8, 9u8]),
        record(&partition_value(7, ID_A)),
    ]);
    let ix = read_topic_index(&log).unwrap();
    assert_eq!(ix.topics.len(), 1);
    assert_eq!(ix.topics[0].partitions, vec![7]);
}

#[test]
fn test_single_record_batch_contributes_nothing() {
    let log = batch(&[record(&topic_value("foo", ID_A))]);
    let ix = read_topic_index(&log).unwrap();
    assert_eq!(ix.topics.len(), 0);
}

#[test]
fn test_partition_with_other_topic_id_not_appended() {
    let log = batch(&[
        record(&topic_value("foo", ID_A)),
        record(&partition_value(0, ID_B)),
        record(&partition_value(1, ID_A)),
    ]);
    let ix = read_topic_index(&log).unwrap();
    assert_eq!(ix.topics[0].partitions, vec![1]);
}

#[test]
fn test_duplicate_partition_records_are_kept() {
    let log = batch(&[
        record(&topic_value("foo", ID_A)),
        record(&partition_value(5, ID_A)),
        record(&partition_value(5, ID_A)),
    ]);
    let ix = read_topic_index(&log).unwrap();
    assert_eq!(ix.topics[0].partitions, vec![5, 5]);
}

#[test]
fn test_later_batch_replaces_topic_entry() {
    let mut log = batch(&[
        record(&topic_value("foo", ID_A)),
        record(&partition_value(0, ID_A)),
    ]);
    log.extend_from_slice(&batch(&[
        record(&topic_value("foo", ID_B)),
        record(&partition_value(2, ID_B)),
    ]));
    let ix = read_topic_index(&log).unwrap();
    assert_eq!(ix.topics.len(), 1);
    assert_eq!(ix.topics[0].topic_id, ID_B.to_vec());
    assert_eq!(ix.topics[0].partitions, vec![2]);
}

#[test]
fn test_two_topics_in_two_batches() {
    let mut log = batch(&[
        record(&topic_value("alpha", ID_A)),
        record(&partition_value(0, ID_A)),
    ]);
    log.extend_from_slice(&batch(&[
        record(&topic_value("beta", ID_B)),
        record(&partition_value(0, ID_B)),
        record(&partition_value(1, ID_B)),
    ]));
    let ix = read_topic_index(&log).unwrap();
    assert_eq!(ix.topics.len(), 2);
    assert_eq!(ix.topics[0].name, b"alpha".to_vec());
    assert_eq!(ix.topics[1].name, b"beta".to_vec());
    assert_eq!(ix.topics[1].partitions, vec![0, 1]);
}
