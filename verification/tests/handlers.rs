use minibroker::api_key::ApiKey;
use minibroker::handler::{
    fetch_plan, handle_api_versions, handle_describe_topic_partitions, handle_fetch,
};
use minibroker::metadata::read_topic_index;
use minibroker::requests::{DescribeTopicPartitionsRequest, FetchRequest, FetchTopic};

fn put_u32(out: &mut Vec<u8>, v: u32) {
    out.extend_from_slice(&v.to_be_bytes());
}

fn put_uvarint(out: &mut Vec<u8>, mut v: u32) {
    while v >= 0x80 {
        out.push(((v % 0x80) + 0x80) as u8);
        v /= 0x80;
    }
    out.push(v as u8);
}

fn put_zigzag(out: &mut Vec<u8>, v: i32) {
    put_uvarint(out, ((v << 1) ^ (v >> 31)) as u32);
}

fn record(value: &[u8]) -> Vec<u8> {
    let mut body = Vec::new();
    body.push(0u8);
    put_zigzag(&mut body, 0);
    put_zigzag(&mut body, 0);
    put_zigzag(&mut body, -1);
    put_zigzag(&mut body, value.len() as i32);
    body.extend_from_slice(value);
    put_zigzag(&mut body, 0);
    body
}

fn topic_value(name: &str, id: [u8; 16]) -> Vec<u8> {
    let mut v = vec![1u8, 2u8, 0u8];
    put_uvarint(&mut v, name.len() as u32 + 1);
    v.extend_from_slice(name.as_bytes());
    v.extend_from_slice(&id);
    v.push(0u8);
    v
}

fn partition_value(partition_id: i32, topic_id: [u8; 16]) -> Vec<u8> {
    let mut v = vec![1u8, 3u8, 0u8];
    v.extend_from_slice(&partition_id.to_be_bytes());
    v.extend_from_slice(&topic_id);
    v
}

fn batch(records: &[Vec<u8>]) -> Vec<u8> {
    let mut recs = Vec::new();
    for r in records {
        put_zigzag(&mut recs, r.len() as i32);
        recs.extend_from_slice(r);
    }
    let mut body = vec![0u8; 45];
    put_u32(&mut body, records.len() as u32);
    body.extend_from_slice(&recs);
    let mut out = vec![0u8; 8];
    put_u32(&mut out, body.len() as u32);
    out.extend_from_slice(&body);
    out
}

const ID_A: [u8; 16] = [0xaa; 16];
const ID_B: [u8; 16] = [0xbb; 16];

fn sample_log() -> Vec<u8> {
    let mut log = batch(&[
        record(&topic_value("alpha", ID_A)),
        record(&partition_value(0, ID_A)),
        record(&partition_value(1, ID_A)),
    ]);
    log.extend_from_slice(&batch(&[
        record(&topic_value("beta", ID_B)),
        record(&partition_value(4, ID_B)),
    ]));
    log
}

#[test]
fn test_capability_table_is_static_and_full() {
    let r = handle_api_versions();
    assert_eq!(r.error_code, 0);
    assert_eq!(r.api_keys.len(), 3);
    assert_eq!(r.api_keys[0].api_key, ApiKey::ApiVersions);
    assert_eq!((r.api_keys[0].min_version, r.api_keys[0].max_version), (0, 4));
    assert_eq!(r.api_keys[1].api_key, ApiKey::DescribeTopicPartitions);
    assert_eq!((r.api_keys[1].min_version, r.api_keys[1].max_version), (0, 4));
    assert_eq!(r.api_keys[2].api_key, ApiKey::Fetch);
    assert_eq!((r.api_keys[2].min_version, r.api_keys[2].max_version), (0, 16));
}

#[test]
fn test_discovery_round_trip() {
    let ix = read_topic_index(&sample_log()).unwrap();
    let req = DescribeTopicPartitionsRequest { topics: vec![b"alpha".to_vec()] };
    let r = handle_describe_topic_partitions(&req, &ix);
    assert_eq!(r.topics.len(), 1);
    let t = &r.topics[0];
    assert_eq!(t.error_code, 0);
    assert_eq!(t.name, b"alpha".to_vec());
    assert_eq!(t.topic_id, ID_A.to_vec());
    let idx: Vec<i32> = t.partitions.iter().map(|p| p.partition_index).collect();
    assert_eq!(idx, vec![0, 1]);
    assert!(t.partitions.iter().all(|p| p.error_code == 0));
}

#[test]
fn test_discovery_unknown_topic() {
    let ix = read_topic_index(&sample_log()).unwrap();
    let req = DescribeTopicPartitionsRequest { topics: vec![b"missing-topic".to_vec()] };
    let r = handle_describe_topic_partitions(&req, &ix);
    assert_eq!(r.topics.len(), 1);
    let t = &r.topics[0];
    assert_eq!(t.error_code, 3);
    assert_eq!(t.name, b"missing-topic".to_vec());
    assert_eq!(t.topic_id, vec![0u8; 16]);
    assert!(t.partitions.is_empty());
}

#[test]
fn test_discovery_order_follows_request() {
    // The log declares alpha before beta; the request asks the other way
    // round and the response follows the request.
    let ix = read_topic_index(&sample_log()).unwrap();
    let req = DescribeTopicPartitionsRequest {
        topics: vec![b"beta".to_vec(), b"alpha".to_vec()],
    };
    let r = handle_describe_topic_partitions(&req, &ix);
    assert_eq!(r.topics.len(), 2);
    assert_eq!(r.topics[0].name, b"beta".to_vec());
    assert_eq!(r.topics[1].name, b"alpha".to_vec());
}

#[test]
fn test_fetch_plan_names_reads_in_request_order() {
    let ix = read_topic_index(&sample_log()).unwrap();
    let req = FetchRequest {
        topics: vec![
            FetchTopic { topic_id: ID_B.to_vec(), partitions: vec![4] },
            FetchTopic { topic_id: vec![0x77; 16], partitions: vec![0] },
        ],
    };
    let plan = fetch_plan(&req, &ix);
    assert_eq!(plan.len(), 2);
    assert_eq!(plan[0].len(), 1);
    assert_eq!(plan[0][0].name, b"beta".to_vec());
    assert_eq!(plan[0][0].partition, 4);
    assert!(plan[1].is_empty());
}

#[test]
fn test_fetch_unknown_topic_id() {
    let ix = read_topic_index(&sample_log()).unwrap();
    let req = FetchRequest {
        topics: vec![FetchTopic { topic_id: vec![0x77; 16], partitions: vec![0, 1] }],
    };
    let r = handle_fetch(&req, &ix, &vec![Vec::new()]);
    assert_eq!(r.responses.len(), 1);
    let t = &r.responses[0];
    assert_eq!(t.topic_id, vec![0x77; 16]);
    assert_eq!(t.partitions.len(), 1);
    assert_eq!(t.partitions[0].error_code, 100);
    assert_eq!(t.partitions[0].partition_index, 0);
    assert_eq!(t.partitions[0].records, None);
}

#[test]
fn test_fetch_known_topic_returns_raw_bytes_verbatim() {
    let ix = read_topic_index(&sample_log()).unwrap();
    let payload = vec![0x10, 0x20, 0x30, 0x40];
    let req = FetchRequest {
        topics: vec![FetchTopic { topic_id: ID_A.to_vec(), partitions: vec![1] }],
    };
    let r = handle_fetch(&req, &ix, &vec![vec![Some(payload.clone())]]);
    let t = &r.responses[0];
    assert_eq!(t.topic_id, ID_A.to_vec());
    assert_eq!(t.partitions.len(), 1);
    assert_eq!(t.partitions[0].partition_index, 1);
    assert_eq!(t.partitions[0].error_code, 0);
    assert_eq!(t.partitions[0].records, Some(payload));
}

#[test]
fn test_fetch_missing_partition_log() {
    // A partition whose log could not be read gets its own error entry;
    // the rest of the topic is unaffected.
    let ix = read_topic_index(&sample_log()).unwrap();
    let req = FetchRequest {
        topics: vec![FetchTopic { topic_id: ID_A.to_vec(), partitions: vec![0, 9] }],
    };
    let r = handle_fetch(&req, &ix, &vec![vec![Some(vec![1, 2]), None]]);
    let t = &r.responses[0];
    assert_eq!(t.partitions.len(), 2);
    assert_eq!(t.partitions[0].error_code, 0);
    assert_eq!(t.partitions[0].records, Some(vec![1, 2]));
    assert_eq!(t.partitions[1].partition_index, 9);
    assert_eq!(t.partitions[1].error_code, 3);
    assert_eq!(t.partitions[1].records, None);
}

#[test]
fn test_fetch_empty_request() {
    let ix = read_topic_index(&sample_log()).unwrap();
    let req = FetchRequest { topics: vec![] };
    let r = handle_fetch(&req, &ix, &Vec::new());
    assert!(r.responses.is_empty());
}
