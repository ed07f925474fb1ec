use minibroker::error::{DecodeError, ErrorCode};
use minibroker::requests::{route, DecodedRequest, Routed};
use minibroker::responses::response_with_error;

fn put_uvarint(out: &mut Vec<u8>, mut v: u32) {
    while v >= 0x80 {
        out.push(((v % 0x80) + 0x80) as u8);
        v /= 0x80;
    }
    out.push(v as u8);
}

/// A frame with a version-2 header: key, version, correlation id, client
/// id, empty tagged fields, then the body.
fn frame_v2(api_key: i16, api_version: i16, correlation_id: i32, body: &[u8]) -> Vec<u8> {
    let mut f = Vec::new();
    f.extend_from_slice(&api_key.to_be_bytes());
    f.extend_from_slice(&api_version.to_be_bytes());
    f.extend_from_slice(&correlation_id.to_be_bytes());
    f.extend_from_slice(&4i16.to_be_bytes());
    f.extend_from_slice(b"test");
    f.push(0u8); // empty tagged-field section
    f.extend_from_slice(body);
    f
}

/// A version-1 header (no tagged fields), as older API versions use.
fn frame_v1(api_key: i16, api_version: i16, correlation_id: i32, body: &[u8]) -> Vec<u8> {
    let mut f = Vec::new();
    f.extend_from_slice(&api_key.to_be_bytes());
    f.extend_from_slice(&api_version.to_be_bytes());
    f.extend_from_slice(&correlation_id.to_be_bytes());
    f.extend_from_slice(&(-1i16).to_be_bytes()); // null client id
    f.extend_from_slice(body);
    f
}

fn describe_body(names: &[&str]) -> Vec<u8> {
    let mut b = Vec::new();
    put_uvarint(&mut b, names.len() as u32 + 1);
    for n in names {
        put_uvarint(&mut b, n.len() as u32 + 1);
        b.extend_from_slice(n.as_bytes());
        b.push(0u8); // topic tagged fields
    }
    b.extend_from_slice(&100i32.to_be_bytes()); // partition limit
    b.push(0xff); // null cursor
    b.push(0u8); // body tagged fields
    b
}

fn fetch_body(topics: &[([u8; 16], &[i32])]) -> Vec<u8> {
    let mut b = vec![0u8; 21]; // max wait .. session epoch
    put_uvarint(&mut b, topics.len() as u32 + 1);
    for (id, parts) in topics {
        b.extend_from_slice(id);
        put_uvarint(&mut b, parts.len() as u32 + 1);
        for p in *parts {
            b.extend_from_slice(&p.to_be_bytes());
            b.extend_from_slice(&[0u8; 28]); // epochs, offsets, max bytes
            b.push(0u8); // partition tagged fields
        }
        b.push(0u8); // topic tagged fields
    }
    b
}

#[test]
fn test_route_api_versions_ignores_body() {
    // Arbitrary garbage in the body: capability negotiation never reads it.
    let f = frame_v2(18, 4, 7, &[0xde, 0xad, 0xbe, 0xef]);
    match route(&f).unwrap() {
        Routed::Request(h, DecodedRequest::ApiVersions) => {
            assert_eq!(h.api_key, 18);
            assert_eq!(h.api_version, 4);
            assert_eq!(h.correlation_id, 7);
            assert_eq!(h.client_id, Some(b"test".to_vec()));
        }
        other => panic!("unexpected: {:?}", other),
    }
}

#[test]
fn test_route_unsupported_version_short_circuit() {
    let f = frame_v2(18, 99, 0x01020304, &[]);
    match route(&f).unwrap() {
        Routed::VersionError(b) => {
            assert_eq!(b, vec![0, 0, 0, 4, 0x01, 0x02, 0x03, 0x04, 0, 35]);
        }
        other => panic!("unexpected: {:?}", other),
    }
}

#[test]
fn test_route_negative_version_short_circuit() {
    let f = frame_v1(18, -1, 9, &[]);
    match route(&f).unwrap() {
        Routed::VersionError(b) => {
            assert_eq!(b, response_with_error(9, ErrorCode::UnsupportedVersion));
        }
        other => panic!("unexpected: {:?}", other),
    }
}

#[test]
fn test_route_supported_versions_never_short_circuit() {
    // Every (api key, version) pair within the advertised ranges: never the
    // version short-circuit, whatever becomes of the body.
    for &(key, min, max) in &[(18i16, 0i16, 4i16), (75, 0, 4), (1, 0, 16)] {
        for ver in min..=max {
            let f = if key == 75 || (key == 18 && ver >= 3) || (key == 1 && ver >= 12) {
                frame_v2(key, ver, 1, &[])
            } else {
                frame_v1(key, ver, 1, &[])
            };
            let r = route(&f);
            assert!(
                !matches!(r, Ok(Routed::VersionError(_))),
                "short-circuit for key {} version {}",
                key,
                ver
            );
        }
    }
}

#[test]
fn test_route_unknown_api_key() {
    let f = frame_v2(42, 0, 1, &[]);
    assert_eq!(route(&f).unwrap_err(), DecodeError::UnknownApiKey);
}

#[test]
fn test_route_truncated_header() {
    assert_eq!(route(&vec![0, 18]).unwrap_err(), DecodeError::TruncatedInput);
}

#[test]
fn test_route_describe_request() {
    let f = frame_v2(75, 0, 5, &describe_body(&["foo", "bar"]));
    match route(&f).unwrap() {
        Routed::Request(h, DecodedRequest::DescribeTopicPartitions(req)) => {
            assert_eq!(h.correlation_id, 5);
            assert_eq!(req.topics, vec![b"foo".to_vec(), b"bar".to_vec()]);
        }
        other => panic!("unexpected: {:?}", other),
    }
}

#[test]
fn test_route_fetch_request() {
    let id = [0x11u8; 16];
    let f = frame_v2(1, 16, 6, &fetch_body(&[(id, &[0, 1])]));
    match route(&f).unwrap() {
        Routed::Request(_, DecodedRequest::Fetch(req)) => {
            assert_eq!(req.topics.len(), 1);
            assert_eq!(req.topics[0].topic_id, id.to_vec());
            assert_eq!(req.topics[0].partitions, vec![0, 1]);
        }
        other => panic!("unexpected: {:?}", other),
    }
}

#[test]
fn test_route_describe_truncated_body() {
    let mut f = frame_v2(75, 0, 5, &describe_body(&["foo"]));
    f.truncate(f.len() - 10);
    assert_eq!(route(&f).unwrap_err(), DecodeError::TruncatedInput);
}
