use bytes::Bytes;
use kafka_protocol::messages::api_versions_response::ApiVersionsResponse as KpApiVersionsResponse;
use kafka_protocol::messages::describe_topic_partitions_response::DescribeTopicPartitionsResponse as KpDescribeResponse;
use kafka_protocol::messages::fetch_response::FetchResponse as KpFetchResponse;
use kafka_protocol::protocol::Decodable;
use uuid::Uuid;

use minibroker::error::ErrorCode;
use minibroker::handler::handle_api_versions;
use minibroker::responses::{
    build_response, encode_api_versions_response, encode_describe_response, encode_fetch_response,
    response_with_error, DescribePartition, DescribeTopic, DescribeTopicPartitionsResponse,
    FetchPartition, FetchResponse, FetchTopicResponse,
};

#[test]
fn test_error_frame_exact_bytes() {
    let b = response_with_error(0x01020304, ErrorCode::UnsupportedVersion);
    assert_eq!(b, vec![0, 0, 0, 4, 0x01, 0x02, 0x03, 0x04, 0, 35]);
}

#[test]
fn test_error_frame_negative_correlation_id() {
    let b = response_with_error(-1, ErrorCode::UnsupportedVersion);
    assert_eq!(b, vec![0, 0, 0, 4, 0xff, 0xff, 0xff, 0xff, 0, 35]);
}

#[test]
fn test_build_response_prefixes_size() {
    let header = vec![0, 0, 0, 9];
    let body = vec![1, 2, 3];
    let framed = build_response(&header, &body);
    assert_eq!(framed, vec![0, 0, 0, 7, 0, 0, 0, 9, 1, 2, 3]);
}

fn split_frame(frame: &[u8], header_version: i16) -> (i32, Bytes) {
    let size = u32::from_be_bytes(frame[0..4].try_into().unwrap()) as usize;
    assert_eq!(size, frame.len() - 4, "size prefix must cover the payload");
    let cid = i32::from_be_bytes(frame[4..8].try_into().unwrap());
    let body_start = if header_version >= 1 {
        assert_eq!(frame[8], 0, "empty tagged-field section after the correlation id");
        9
    } else {
        8
    };
    (cid, Bytes::copy_from_slice(&frame[body_start..]))
}

#[test]
fn test_api_versions_frame_decodes_with_protocol_library() {
    let resp = handle_api_versions();
    let frame = encode_api_versions_response(7, &resp).unwrap();
    let (cid, mut body) = split_frame(&frame, 0);
    assert_eq!(cid, 7);
    let decoded = KpApiVersionsResponse::decode(&mut body, 4).unwrap();
    assert_eq!(decoded.error_code, 0);
    let keys: Vec<(i16, i16, i16)> = decoded
        .api_keys
        .iter()
        .map(|k| (k.api_key, k.min_version, k.max_version))
        .collect();
    assert_eq!(keys, vec![(18, 0, 4), (75, 0, 4), (1, 0, 16)]);
    assert_eq!(decoded.throttle_time_ms, 0);
    assert!(body.is_empty(), "the decoder must consume the whole body");
}

#[test]
fn test_describe_frame_decodes_with_protocol_library() {
    let resp = DescribeTopicPartitionsResponse {
        topics: vec![
            DescribeTopic {
                error_code: 0,
                name: b"alpha".to_vec(),
                topic_id: vec![0xaa; 16],
                is_internal: false,
                partitions: vec![
                    DescribePartition { error_code: 0, partition_index: 0 },
                    DescribePartition { error_code: 0, partition_index: 1 },
                ],
            },
            DescribeTopic {
                error_code: 3,
                name: b"missing-topic".to_vec(),
                topic_id: vec![0u8; 16],
                is_internal: false,
                partitions: vec![],
            },
        ],
    };
    let frame = encode_describe_response(9, &resp).unwrap();
    let (cid, mut body) = split_frame(&frame, 1);
    assert_eq!(cid, 9);
    let decoded = KpDescribeResponse::decode(&mut body, 0).unwrap();
    assert_eq!(decoded.topics.len(), 2);
    let t0 = &decoded.topics[0];
    assert_eq!(t0.error_code, 0);
    assert_eq!(t0.name.as_ref().unwrap().0.as_str(), "alpha");
    assert_eq!(t0.topic_id, Uuid::from_bytes([0xaa; 16]));
    let idx: Vec<i32> = t0.partitions.iter().map(|p| p.partition_index).collect();
    assert_eq!(idx, vec![0, 1]);
    let t1 = &decoded.topics[1];
    assert_eq!(t1.error_code, 3);
    assert_eq!(t1.name.as_ref().unwrap().0.as_str(), "missing-topic");
    assert_eq!(t1.topic_id, Uuid::nil());
    assert!(t1.partitions.is_empty());
    assert!(decoded.next_cursor.is_none());
    assert!(body.is_empty(), "the decoder must consume the whole body");
}

#[test]
fn test_fetch_frame_decodes_with_protocol_library() {
    let payload = vec![0x01, 0x02, 0x03];
    let resp = FetchResponse {
        responses: vec![
            FetchTopicResponse {
                topic_id: vec![0xaa; 16],
                partitions: vec![FetchPartition {
                    partition_index: 1,
                    error_code: 0,
                    records: Some(payload.clone()),
                }],
            },
            FetchTopicResponse {
                topic_id: vec![0x77; 16],
                partitions: vec![FetchPartition {
                    partition_index: 0,
                    error_code: 100,
                    records: None,
                }],
            },
        ],
    };
    let frame = encode_fetch_response(11, &resp).unwrap();
    let (cid, mut body) = split_frame(&frame, 1);
    assert_eq!(cid, 11);
    let decoded = KpFetchResponse::decode(&mut body, 16).unwrap();
    assert_eq!(decoded.error_code, 0);
    assert_eq!(decoded.session_id, 0);
    assert_eq!(decoded.responses.len(), 2);
    let t0 = &decoded.responses[0];
    assert_eq!(t0.topic_id, Uuid::from_bytes([0xaa; 16]));
    assert_eq!(t0.partitions.len(), 1);
    assert_eq!(t0.partitions[0].partition_index, 1);
    assert_eq!(t0.partitions[0].error_code, 0);
    assert_eq!(
        t0.partitions[0].records.as_ref().map(|b| b.to_vec()),
        Some(payload)
    );
    let t1 = &decoded.responses[1];
    assert_eq!(t1.topic_id, Uuid::from_bytes([0x77; 16]));
    assert_eq!(t1.partitions[0].error_code, 100);
    assert_eq!(t1.partitions[0].records.as_ref().map(|b| b.len()), None);
    assert!(body.is_empty(), "the decoder must consume the whole body");
}
