//! The structured responses the handlers build, and the encoders that turn
//! them into framed wire bytes.
//!
//! Every framed message is a 4-byte big-endian size followed by the
//! payload; a response payload starts with the echoed correlation id (and,
//! for header version 1, an empty tagged-field section). Counts use the
//! compact convention (varint of `n + 1`); `tagBuffer` is a single zero
//! byte. Fields this broker never fills are encoded at their protocol
//! defaults.
use vstd::prelude::*;

use crate::api_key::ApiKeyInfo;
use crate::error::ErrorCode;
use crate::wire::{
    append_bytes, enc_compact_bytes, enc_i16_be, enc_i32_be, enc_u32_be, enc_uvarint, put_i16_be,
    put_i32_be, put_u32_be, put_uvarint, put_compact_bytes,
};

verus! {

/// The short-circuit error frame: message size 4, the echoed correlation
/// id, and the error code — the one response sent without a body.
pub open spec fn spec_error_frame(cid: int, code: int) -> Seq<u8> {
    enc_u32_be(4) + enc_i32_be(cid) + enc_i16_be(code)
}

/// Build the short-circuit error response for a request whose version is
/// outside the advertised range.
pub fn response_with_error(correlation_id: i32, error: ErrorCode) -> (r: Vec<u8>)
    ensures
        r@ == spec_error_frame(correlation_id as int, error.spec_code() as int),
{
    let mut out: Vec<u8> = Vec::new();
    put_u32_be(&mut out, 4);
    put_i32_be(&mut out, correlation_id);
    put_i16_be(&mut out, error.code());
    proof {
        assert(out@ =~= spec_error_frame(correlation_id as int, error.spec_code() as int));
    }
    out
}

/// Frame a response from already-encoded header and body bytes: a 4-byte
/// big-endian message size, then the two parts.
pub fn build_response(header: &Vec<u8>, body: &Vec<u8>) -> (r: Vec<u8>)
    requires
        header@.len() + body@.len() <= 0x7fffffff,
    ensures
        r@ == enc_u32_be(header@.len() as int + body@.len() as int) + header@ + body@,
{
    let mut out: Vec<u8> = Vec::new();
    let size = (header.len() + body.len()) as u32;
    put_u32_be(&mut out, size);
    append_bytes(&mut out, header);
    append_bytes(&mut out, body);
    proof {
        assert(out@ =~= enc_u32_be(header@.len() as int + body@.len() as int) + header@ + body@);
    }
    out
}

/// A response header: the echoed correlation id, plus an empty tagged-field
/// section from header version 1 on.
pub open spec fn enc_response_header(cid: int, version: int) -> Seq<u8> {
    if version >= 1 {
        enc_i32_be(cid) + seq![0u8]
    } else {
        enc_i32_be(cid)
    }
}

pub fn encode_response_header(correlation_id: i32, version: i16) -> (r: Vec<u8>)
    ensures
        r@ == enc_response_header(correlation_id as int, version as int),
{
    let mut out: Vec<u8> = Vec::new();
    put_i32_be(&mut out, correlation_id);
    if version >= 1 {
        out.push(0u8);
    }
    proof {
        assert(out@ =~= enc_response_header(correlation_id as int, version as int));
    }
    out
}

// --- capability negotiation -------------------------------------------------

/// The capability-negotiation response: a top-level error code and the
/// advertised table.
#[derive(Debug, PartialEq)]
pub struct ApiVersionsResponse {
    pub error_code: i16,
    pub api_keys: Vec<ApiKeyInfo>,
}

/// One advertised entry: key, min and max version, and its tag buffer.
pub open spec fn enc_api_key_entry(e: ApiKeyInfo) -> Seq<u8> {
    enc_i16_be(e.api_key.spec_code() as int) + enc_i16_be(e.min_version as int) + enc_i16_be(
        e.max_version as int,
    ) + seq![0u8]
}

pub open spec fn enc_api_key_entries(keys: Seq<ApiKeyInfo>, i: int) -> Seq<u8>
    decreases keys.len() - i,
{
    if i < 0 || i >= keys.len() {
        Seq::<u8>::empty()
    } else {
        enc_api_key_entry(keys[i]) + enc_api_key_entries(keys, i + 1)
    }
}

/// Body: error code, compact array of entries, throttle time zero, tag buffer.
pub open spec fn enc_api_versions_body(error_code: int, keys: Seq<ApiKeyInfo>) -> Seq<u8> {
    enc_i16_be(error_code) + enc_uvarint(keys.len() as int + 1) + enc_api_key_entries(keys, 0)
        + enc_i32_be(0) + seq![0u8]
}

/// The framed capability-negotiation response (response header version 0).
pub open spec fn spec_api_versions_frame(cid: int, error_code: int, keys: Seq<ApiKeyInfo>) -> Seq<
    u8,
> {
    enc_u32_be(4 + enc_api_versions_body(error_code, keys).len() as int) + enc_i32_be(cid)
        + enc_api_versions_body(error_code, keys)
}

/// Whether the response fits the wire limits (message size is a 31-bit value).
pub open spec fn api_versions_encodable(keys: Seq<ApiKeyInfo>) -> bool {
    keys.len() < 0xfffffffe && 4 + enc_api_versions_body(0, keys).len() <= 0x7fffffff
}

pub fn encode_api_versions_response(correlation_id: i32, resp: &ApiVersionsResponse) -> (r: Option<
    Vec<u8>,
>)
    ensures
        match r {
            Some(b) => b@ == spec_api_versions_frame(
                correlation_id as int,
                resp.error_code as int,
                resp.api_keys@,
            ),
            None => !api_versions_encodable(resp.api_keys@),
        },
{
    let keys = &resp.api_keys;
    if keys.len() >= 0xfffffffe {
        return None;
    }
    let mut body: Vec<u8> = Vec::new();
    put_i16_be(&mut body, resp.error_code);
    put_uvarint(&mut body, (keys.len() as u32) + 1);
    let ghost pre = body@;
    let mut i: usize = 0;
    let n = keys.len();
    proof {
        assert(pre + enc_api_key_entries(keys@, 0) =~= pre + enc_api_key_entries(keys@, 0));
    }
    while i < n
        invariant
            i <= n,
            n == keys@.len(),
            body@ + enc_api_key_entries(keys@, i as int) == pre + enc_api_key_entries(keys@, 0),
        decreases n - i,
    {
        let ghost body_g = body@;
        let e = keys[i];
        put_i16_be(&mut body, e.api_key.code());
        put_i16_be(&mut body, e.min_version);
        put_i16_be(&mut body, e.max_version);
        body.push(0u8);
        i = i + 1;
        proof {
            assert(body@ =~= body_g + enc_api_key_entry(keys@[i as int - 1]));
            assert(body_g + (enc_api_key_entry(keys@[i as int - 1]) + enc_api_key_entries(
                keys@,
                i as int,
            )) =~= body@ + enc_api_key_entries(keys@, i as int));
        }
    }
    proof {
        assert(enc_api_key_entries(keys@, n as int) =~= Seq::<u8>::empty());
        assert(body@ + Seq::<u8>::empty() =~= body@);
    }
    put_i32_be(&mut body, 0);
    body.push(0u8);
    proof {
        assert(body@ =~= enc_api_versions_body(resp.error_code as int, keys@));
        assert(enc_api_versions_body(resp.error_code as int, keys@).len()
            == enc_api_versions_body(0, keys@).len());
    }
    if body.len() > 0x7fffffff - 4 {
        return None;
    }
    let header = encode_response_header(correlation_id, 0);
    let framed = build_response(&header, &body);
    proof {
        assert(framed@ =~= spec_api_versions_frame(
            correlation_id as int,
            resp.error_code as int,
            resp.api_keys@,
        ));
    }
    Some(framed)
}

// --- topic/partition discovery ----------------------------------------------

/// One partition of a discovery response topic.
#[derive(Clone, Copy, Debug, PartialEq, Eq, Structural)]
pub struct DescribePartition {
    pub error_code: i16,
    pub partition_index: i32,
}

/// One topic of a discovery response.
#[derive(Debug, PartialEq)]
pub struct DescribeTopic {
    pub error_code: i16,
    pub name: Vec<u8>,
    pub topic_id: Vec<u8>,
    pub is_internal: bool,
    pub partitions: Vec<DescribePartition>,
}

/// The mathematical shadow of `DescribeTopic`.
pub struct SpecDescribeTopic {
    pub error_code: i16,
    pub name: Seq<u8>,
    pub topic_id: Seq<u8>,
    pub is_internal: bool,
    pub partitions: Seq<DescribePartition>,
}

impl View for DescribeTopic {
    type V = SpecDescribeTopic;

    open spec fn view(&self) -> SpecDescribeTopic {
        SpecDescribeTopic {
            error_code: self.error_code,
            name: self.name@,
            topic_id: self.topic_id@,
            is_internal: self.is_internal,
            partitions: self.partitions@,
        }
    }
}

/// The discovery response: one entry per requested topic, in request order.
#[derive(Debug, PartialEq)]
pub struct DescribeTopicPartitionsResponse {
    pub topics: Vec<DescribeTopic>,
}

/// The interpretation of a sequence of discovery response topics.
pub open spec fn describe_topics_view(v: Seq<DescribeTopic>) -> Seq<SpecDescribeTopic> {
    v.map_values(|t: DescribeTopic| t@)
}

/// One encoded partition: the broker fills error code and index; leader,
/// replica and ELR fields stay at their protocol defaults.
pub open spec fn enc_describe_partition(p: DescribePartition) -> Seq<u8> {
    enc_i16_be(p.error_code as int) + enc_i32_be(p.partition_index as int) + enc_i32_be(0)
        + enc_i32_be(-1) + seq![1u8, 1u8, 0u8, 0u8, 1u8] + seq![0u8]
}

pub open spec fn enc_describe_partitions(ps: Seq<DescribePartition>, i: int) -> Seq<u8>
    decreases ps.len() - i,
{
    if i < 0 || i >= ps.len() {
        Seq::<u8>::empty()
    } else {
        enc_describe_partition(ps[i]) + enc_describe_partitions(ps, i + 1)
    }
}

/// One encoded topic: error code, compact name, 16-byte id, internal flag,
/// the partitions, no authorized operations, and its tag buffer.
pub open spec fn enc_describe_topic(t: SpecDescribeTopic) -> Seq<u8> {
    enc_i16_be(t.error_code as int) + enc_compact_bytes(t.name) + t.topic_id + seq![
        if t.is_internal {
            1u8
        } else {
            0u8
        },
    ] + enc_uvarint(t.partitions.len() as int + 1) + enc_describe_partitions(t.partitions, 0)
        + enc_i32_be(-0x80000000) + seq![0u8]
}

pub open spec fn enc_describe_topics(ts: Seq<SpecDescribeTopic>, i: int) -> Seq<u8>
    decreases ts.len() - i,
{
    if i < 0 || i >= ts.len() {
        Seq::<u8>::empty()
    } else {
        enc_describe_topic(ts[i]) + enc_describe_topics(ts, i + 1)
    }
}

/// Body: throttle time zero, the topics, an absent pagination cursor, and
/// the tag buffer.
pub open spec fn enc_describe_body(ts: Seq<SpecDescribeTopic>) -> Seq<u8> {
    enc_i32_be(0) + enc_uvarint(ts.len() as int + 1) + enc_describe_topics(ts, 0) + seq![
        0xffu8,
        0u8,
    ]
}

/// The framed discovery response (response header version 1).
pub open spec fn spec_describe_frame(cid: int, ts: Seq<SpecDescribeTopic>) -> Seq<u8> {
    enc_u32_be(5 + enc_describe_body(ts).len() as int) + enc_i32_be(cid) + seq![0u8]
        + enc_describe_body(ts)
}

/// Whether one discovery topic fits the wire limits.
pub open spec fn describe_topic_ok(t: SpecDescribeTopic) -> bool {
    t.name.len() < 0xffffffff && t.partitions.len() < 0xfffffffe
}

/// Whether the discovery response fits the wire limits.
pub open spec fn describe_encodable(ts: Seq<SpecDescribeTopic>) -> bool {
    ts.len() < 0xfffffffe && (forall|i: int|
        0 <= i < ts.len() ==> describe_topic_ok(#[trigger] ts[i])) && 5 + enc_describe_body(
        ts,
    ).len() <= 0x7fffffff
}

fn encode_describe_partition_into(out: &mut Vec<u8>, p: DescribePartition)
    ensures
        final(out)@ == old(out)@ + enc_describe_partition(p),
{
    put_i16_be(out, p.error_code);
    put_i32_be(out, p.partition_index);
    put_i32_be(out, 0);
    put_i32_be(out, -1);
    out.push(1u8);
    out.push(1u8);
    out.push(0u8);
    out.push(0u8);
    out.push(1u8);
    out.push(0u8);
    proof {
        assert(out@ =~= old(out)@ + enc_describe_partition(p));
    }
}

fn encode_describe_topic_into(out: &mut Vec<u8>, t: &DescribeTopic)
    requires
        describe_topic_ok(t@),
    ensures
        final(out)@ == old(out)@ + enc_describe_topic(t@),
{
    put_i16_be(out, t.error_code);
    put_compact_bytes(out, &t.name);
    append_bytes(out, &t.topic_id);
    if t.is_internal {
        out.push(1u8);
    } else {
        out.push(0u8);
    }
    put_uvarint(out, (t.partitions.len() as u32) + 1);
    let ghost pre = out@;
    let mut i: usize = 0;
    let n = t.partitions.len();
    while i < n
        invariant
            i <= n,
            n == t.partitions@.len(),
            out@ + enc_describe_partitions(t.partitions@, i as int) == pre
                + enc_describe_partitions(t.partitions@, 0),
        decreases n - i,
    {
        let ghost out_g = out@;
        encode_describe_partition_into(out, t.partitions[i]);
        i = i + 1;
        proof {
            assert(out_g + (enc_describe_partition(t.partitions@[i as int - 1])
                + enc_describe_partitions(t.partitions@, i as int)) =~= out@
                + enc_describe_partitions(t.partitions@, i as int));
        }
    }
    proof {
        assert(out@ + Seq::<u8>::empty() =~= out@);
    }
    put_i32_be(out, -2147483648i32);
    out.push(0u8);
    proof {
        assert(out@ =~= old(out)@ + enc_describe_topic(t@));
    }
}

/// Encode the framed discovery response, or nothing if it cannot fit the
/// wire limits.
pub fn encode_describe_response(correlation_id: i32, resp: &DescribeTopicPartitionsResponse) -> (r:
    Option<Vec<u8>>)
    ensures
        match r {
            Some(b) => b@ == spec_describe_frame(
                correlation_id as int,
                describe_topics_view(resp.topics@),
            ),
            None => !describe_encodable(describe_topics_view(resp.topics@)),
        },
{
    let ghost tsv = describe_topics_view(resp.topics@);
    let n = resp.topics.len();
    if n >= 0xfffffffe {
        return None;
    }
    let mut i: usize = 0;
    while i < n
        invariant
            i <= n,
            n == resp.topics@.len(),
            tsv == describe_topics_view(resp.topics@),
            tsv.len() == n,
            forall|j: int| 0 <= j < i ==> describe_topic_ok(#[trigger] tsv[j]),
        decreases n - i,
    {
        proof {
            assert(tsv[i as int] == resp.topics@[i as int]@);
        }
        let t = &resp.topics[i];
        if t.name.len() >= 0xffffffff || t.partitions.len() >= 0xfffffffe {
            return None;
        }
        i = i + 1;
    }
    let mut body: Vec<u8> = Vec::new();
    put_i32_be(&mut body, 0);
    put_uvarint(&mut body, (n as u32) + 1);
    let ghost pre = body@;
    let mut k: usize = 0;
    while k < n
        invariant
            k <= n,
            n == resp.topics@.len(),
            tsv == describe_topics_view(resp.topics@),
            tsv.len() == n,
            forall|j: int| 0 <= j < n ==> describe_topic_ok(#[trigger] tsv[j]),
            body@ + enc_describe_topics(tsv, k as int) == pre + enc_describe_topics(tsv, 0),
        decreases n - k,
    {
        let ghost body_g = body@;
        proof {
            assert(tsv[k as int] == resp.topics@[k as int]@);
        }
        encode_describe_topic_into(&mut body, &resp.topics[k]);
        k = k + 1;
        proof {
            assert(body_g + (enc_describe_topic(tsv[k as int - 1]) + enc_describe_topics(
                tsv,
                k as int,
            )) =~= body@ + enc_describe_topics(tsv, k as int));
        }
    }
    proof {
        assert(body@ + Seq::<u8>::empty() =~= body@);
    }
    body.push(0xffu8);
    body.push(0u8);
    proof {
        assert(body@ =~= enc_describe_body(tsv));
    }
    if body.len() > 0x7fffffff - 5 {
        return None;
    }
    let header = encode_response_header(correlation_id, 1);
    let framed = build_response(&header, &body);
    proof {
        assert(framed@ =~= spec_describe_frame(correlation_id as int, tsv));
    }
    Some(framed)
}

// --- record retrieval ---------------------------------------------------------

/// One partition of a fetch response: the echoed index, a per-partition
/// error code, and the raw record bytes, absent when the topic id was
/// unknown or the partition's log could not be read.
#[derive(Debug, PartialEq)]
pub struct FetchPartition {
    pub partition_index: i32,
    pub error_code: i16,
    pub records: Option<Vec<u8>>,
}

/// The mathematical shadow of `FetchPartition`.
pub struct SpecFetchPartition {
    pub partition_index: i32,
    pub error_code: i16,
    pub records: Option<Seq<u8>>,
}

impl View for FetchPartition {
    type V = SpecFetchPartition;

    open spec fn view(&self) -> SpecFetchPartition {
        SpecFetchPartition {
            partition_index: self.partition_index,
            error_code: self.error_code,
            records: match self.records {
                Some(b) => Some(b@),
                None => None,
            },
        }
    }
}

/// One topic of a fetch response.
#[derive(Debug, PartialEq)]
pub struct FetchTopicResponse {
    pub topic_id: Vec<u8>,
    pub partitions: Vec<FetchPartition>,
}

/// The mathematical shadow of `FetchTopicResponse`.
pub struct SpecFetchTopicResponse {
    pub topic_id: Seq<u8>,
    pub partitions: Seq<SpecFetchPartition>,
}

/// The interpretation of a sequence of fetch response partitions.
pub open spec fn fetch_partitions_view(v: Seq<FetchPartition>) -> Seq<SpecFetchPartition> {
    v.map_values(|p: FetchPartition| p@)
}

impl View for FetchTopicResponse {
    type V = SpecFetchTopicResponse;

    open spec fn view(&self) -> SpecFetchTopicResponse {
        SpecFetchTopicResponse {
            topic_id: self.topic_id@,
            partitions: fetch_partitions_view(self.partitions@),
        }
    }
}

/// The fetch response: one entry per requested topic, in request order.
#[derive(Debug, PartialEq)]
pub struct FetchResponse {
    pub responses: Vec<FetchTopicResponse>,
}

/// The interpretation of a sequence of fetch response topics.
pub open spec fn fetch_responses_view(v: Seq<FetchTopicResponse>) -> Seq<SpecFetchTopicResponse> {
    v.map_values(|t: FetchTopicResponse| t@)
}

/// One encoded partition: index, error code, then watermark and offset
/// fields at their defaults, no aborted transactions, no preferred read
/// replica, the records as compact nullable bytes, and the tag buffer.
pub open spec fn enc_fetch_partition(p: SpecFetchPartition) -> Seq<u8> {
    enc_i32_be(p.partition_index as int) + enc_i16_be(p.error_code as int) + enc_i32_be(0)
        + enc_i32_be(0) + enc_i32_be(-1) + enc_i32_be(-1) + enc_i32_be(-1) + enc_i32_be(-1) + seq![
        1u8,
    ] + enc_i32_be(-1) + (match p.records {
        None => seq![0u8],
        Some(b) => enc_uvarint(b.len() as int + 1) + b,
    }) + seq![0u8]
}

pub open spec fn enc_fetch_partitions(ps: Seq<SpecFetchPartition>, i: int) -> Seq<u8>
    decreases ps.len() - i,
{
    if i < 0 || i >= ps.len() {
        Seq::<u8>::empty()
    } else {
        enc_fetch_partition(ps[i]) + enc_fetch_partitions(ps, i + 1)
    }
}

/// One encoded topic: the 16-byte id, its partitions, and the tag buffer.
pub open spec fn enc_fetch_topic(t: SpecFetchTopicResponse) -> Seq<u8> {
    t.topic_id + enc_uvarint(t.partitions.len() as int + 1) + enc_fetch_partitions(t.partitions, 0)
        + seq![0u8]
}

pub open spec fn enc_fetch_topics(ts: Seq<SpecFetchTopicResponse>, i: int) -> Seq<u8>
    decreases ts.len() - i,
{
    if i < 0 || i >= ts.len() {
        Seq::<u8>::empty()
    } else {
        enc_fetch_topic(ts[i]) + enc_fetch_topics(ts, i + 1)
    }
}

/// Body: throttle time zero, no top-level error, no session, the topics,
/// and the tag buffer.
pub open spec fn enc_fetch_body(ts: Seq<SpecFetchTopicResponse>) -> Seq<u8> {
    enc_i32_be(0) + enc_i16_be(0) + enc_i32_be(0) + enc_uvarint(ts.len() as int + 1)
        + enc_fetch_topics(ts, 0) + seq![0u8]
}

/// The framed fetch response (response header version 1).
pub open spec fn spec_fetch_frame(cid: int, ts: Seq<SpecFetchTopicResponse>) -> Seq<u8> {
    enc_u32_be(5 + enc_fetch_body(ts).len() as int) + enc_i32_be(cid) + seq![0u8] + enc_fetch_body(
        ts,
    )
}

/// Whether one fetch partition fits the wire limits.
pub open spec fn fetch_partition_ok(p: SpecFetchPartition) -> bool {
    match p.records {
        Some(b) => b.len() < 0xffffffff,
        None => true,
    }
}

/// Whether one fetch topic fits the wire limits.
pub open spec fn fetch_topic_ok(t: SpecFetchTopicResponse) -> bool {
    t.partitions.len() < 0xfffffffe && (forall|j: int|
        0 <= j < t.partitions.len() ==> fetch_partition_ok(#[trigger] t.partitions[j]))
}

/// Whether the fetch response fits the wire limits.
pub open spec fn fetch_encodable(ts: Seq<SpecFetchTopicResponse>) -> bool {
    ts.len() < 0xfffffffe && (forall|i: int| 0 <= i < ts.len() ==> fetch_topic_ok(#[trigger] ts[i]))
        && 5 + enc_fetch_body(ts).len() <= 0x7fffffff
}

fn encode_fetch_partition_into(out: &mut Vec<u8>, p: &FetchPartition)
    requires
        fetch_partition_ok(p@),
    ensures
        final(out)@ == old(out)@ + enc_fetch_partition(p@),
{
    put_i32_be(out, p.partition_index);
    put_i16_be(out, p.error_code);
    put_i32_be(out, 0);
    put_i32_be(out, 0);
    put_i32_be(out, -1);
    put_i32_be(out, -1);
    put_i32_be(out, -1);
    put_i32_be(out, -1);
    out.push(1u8);
    put_i32_be(out, -1);
    match &p.records {
        None => {
            out.push(0u8);
        },
        Some(b) => {
            put_uvarint(out, (b.len() as u32) + 1);
            append_bytes(out, b);
        },
    }
    out.push(0u8);
    proof {
        assert(out@ =~= old(out)@ + enc_fetch_partition(p@));
    }
}

fn encode_fetch_topic_into(out: &mut Vec<u8>, t: &FetchTopicResponse)
    requires
        fetch_topic_ok(t@),
    ensures
        final(out)@ == old(out)@ + enc_fetch_topic(t@),
{
    append_bytes(out, &t.topic_id);
    put_uvarint(out, (t.partitions.len() as u32) + 1);
    let ghost psv = fetch_partitions_view(t.partitions@);
    let ghost pre = out@;
    let mut i: usize = 0;
    let n = t.partitions.len();
    proof {
        assert(psv.len() == t.partitions@.len());
    }
    while i < n
        invariant
            i <= n,
            n == t.partitions@.len(),
            psv == fetch_partitions_view(t.partitions@),
            psv.len() == n,
            forall|j: int| 0 <= j < n ==> fetch_partition_ok(#[trigger] psv[j]),
            out@ + enc_fetch_partitions(psv, i as int) == pre + enc_fetch_partitions(psv, 0),
        decreases n - i,
    {
        let ghost out_g = out@;
        proof {
            assert(psv[i as int] == t.partitions@[i as int]@);
        }
        encode_fetch_partition_into(out, &t.partitions[i]);
        i = i + 1;
        proof {
            assert(out_g + (enc_fetch_partition(psv[i as int - 1]) + enc_fetch_partitions(
                psv,
                i as int,
            )) =~= out@ + enc_fetch_partitions(psv, i as int));
        }
    }
    proof {
        assert(out@ + Seq::<u8>::empty() =~= out@);
    }
    out.push(0u8);
    proof {
        assert(out@ =~= old(out)@ + enc_fetch_topic(t@));
    }
}

/// Encode the framed fetch response, or nothing if it cannot fit the wire
/// limits.
pub fn encode_fetch_response(correlation_id: i32, resp: &FetchResponse) -> (r: Option<Vec<u8>>)
    ensures
        match r {
            Some(b) => b@ == spec_fetch_frame(
                correlation_id as int,
                fetch_responses_view(resp.responses@),
            ),
            None => !fetch_encodable(fetch_responses_view(resp.responses@)),
        },
{
    let ghost tsv = fetch_responses_view(resp.responses@);
    let n = resp.responses.len();
    if n >= 0xfffffffe {
        return None;
    }
    let mut i: usize = 0;
    while i < n
        invariant
            i <= n,
            n == resp.responses@.len(),
            tsv == fetch_responses_view(resp.responses@),
            tsv.len() == n,
            forall|j: int| 0 <= j < i ==> fetch_topic_ok(#[trigger] tsv[j]),
        decreases n - i,
    {
        proof {
            assert(tsv[i as int] == resp.responses@[i as int]@);
        }
        let t = &resp.responses[i];
        let pn = t.partitions.len();
        if pn >= 0xfffffffe {
            return None;
        }
        let ghost psv = fetch_partitions_view(t.partitions@);
        let mut j: usize = 0;
        while j < pn
            invariant
                j <= pn,
                pn == t.partitions@.len(),
                psv == fetch_partitions_view(t.partitions@),
                psv.len() == pn,
                i < n,
                n == resp.responses@.len(),
                tsv == fetch_responses_view(resp.responses@),
                tsv.len() == n,
                *t == resp.responses@[i as int],
                forall|m: int| 0 <= m < j ==> fetch_partition_ok(#[trigger] psv[m]),
            decreases pn - j,
        {
            proof {
                assert(psv[j as int] == t.partitions@[j as int]@);
            }
            match &t.partitions[j].records {
                Some(b) => {
                    if b.len() >= 0xffffffff {
                        proof {
                            assert(psv[j as int].records == Some(b@));
                            assert(!fetch_partition_ok(psv[j as int]));
                            assert(*t == resp.responses@[i as int]);
                            assert(t@ == tsv[i as int]);
                            assert(t@.partitions == psv);
                            assert(!fetch_topic_ok(tsv[i as int]));
                            assert(!fetch_encodable(tsv));
                        }
                        return None;
                    }
                },
                None => {},
            }
            j = j + 1;
        }
        i = i + 1;
    }
    let mut body: Vec<u8> = Vec::new();
    put_i32_be(&mut body, 0);
    put_i16_be(&mut body, 0);
    put_i32_be(&mut body, 0);
    put_uvarint(&mut body, (n as u32) + 1);
    let ghost pre = body@;
    let mut k: usize = 0;
    while k < n
        invariant
            k <= n,
            n == resp.responses@.len(),
            tsv == fetch_responses_view(resp.responses@),
            tsv.len() == n,
            forall|j: int| 0 <= j < n ==> fetch_topic_ok(#[trigger] tsv[j]),
            body@ + enc_fetch_topics(tsv, k as int) == pre + enc_fetch_topics(tsv, 0),
        decreases n - k,
    {
        let ghost body_g = body@;
        proof {
            assert(tsv[k as int] == resp.responses@[k as int]@);
        }
        encode_fetch_topic_into(&mut body, &resp.responses[k]);
        k = k + 1;
        proof {
            assert(body_g + (enc_fetch_topic(tsv[k as int - 1]) + enc_fetch_topics(tsv, k as int))
                =~= body@ + enc_fetch_topics(tsv, k as int));
        }
    }
    proof {
        assert(body@ + Seq::<u8>::empty() =~= body@);
    }
    body.push(0u8);
    proof {
        assert(body@ =~= enc_fetch_body(tsv));
    }
    if body.len() > 0x7fffffff - 5 {
        return None;
    }
    let header = encode_response_header(correlation_id, 1);
    let framed = build_response(&header, &body);
    proof {
        assert(framed@ =~= spec_fetch_frame(correlation_id as int, tsv));
    }
    Some(framed)
}

} // verus!
