//! The request router: peeks the API key and version from the first bytes
//! of a frame, decodes the request header (whose layout version depends on
//! the API), validates the version against the advertised range, and
//! decodes the request body into a tagged request value.
//!
//! A version outside the advertised range short-circuits: no body is
//! decoded and the exact error frame (message size 4, echoed correlation
//! id, error code 35) is returned. An API key without a handler, or bytes
//! that do not parse, abort only this request.
use vstd::prelude::*;

use crate::api_key::{
    spec_header_version, spec_version_supported, ApiKey, check_version, request_header_version,
};
use crate::error::{DecodeError, ErrorCode};
use crate::responses::{response_with_error, spec_error_frame};
use crate::wire::{be_i16, be_i32, copy_range, read_i16_be, read_i32_be};
use crate::{read_uvarint, uvarint_len, uvarint_ok, uvarint_val};

verus! {

/// A decoded request header.
#[derive(Debug, PartialEq)]
pub struct RequestHeader {
    pub api_key: i16,
    pub api_version: i16,
    pub correlation_id: i32,
    pub client_id: Option<Vec<u8>>,
}

/// The mathematical shadow of `RequestHeader`.
pub struct SpecRequestHeader {
    pub api_key: int,
    pub api_version: int,
    pub correlation_id: int,
    pub client_id: Option<Seq<u8>>,
}

impl View for RequestHeader {
    type V = SpecRequestHeader;

    open spec fn view(&self) -> SpecRequestHeader {
        SpecRequestHeader {
            api_key: self.api_key as int,
            api_version: self.api_version as int,
            correlation_id: self.correlation_id as int,
            client_id: match self.client_id {
                Some(v) => Some(v@),
                None => None,
            },
        }
    }
}

/// Skip `count` tagged fields starting at `pos`: each is a tag varint, a
/// size varint, and `size` bytes. Yields the position after them.
pub open spec fn skip_tagged_fields(s: Seq<u8>, pos: int, count: int) -> Option<int>
    decreases count,
{
    if count <= 0 {
        Some(pos)
    } else if !uvarint_ok(s, pos, s.len() as int, 0) {
        None
    } else {
        let p1 = pos + uvarint_len(s, pos, s.len() as int, 0);
        if !uvarint_ok(s, p1, s.len() as int, 0) {
            None
        } else {
            let size = uvarint_val(s, p1, s.len() as int, 0, 0);
            let p2 = p1 + uvarint_len(s, p1, s.len() as int, 0);
            if p2 + size > s.len() {
                None
            } else {
                skip_tagged_fields(s, p2 + size, count - 1)
            }
        }
    }
}

/// Skip a whole tagged-field section: the count varint, then the fields.
pub open spec fn skip_tag_buffer(s: Seq<u8>, pos: int) -> Option<int> {
    if !uvarint_ok(s, pos, s.len() as int, 0) {
        None
    } else {
        skip_tagged_fields(
            s,
            pos + uvarint_len(s, pos, s.len() as int, 0),
            uvarint_val(s, pos, s.len() as int, 0, 0) as int,
        )
    }
}

pub fn skip_tag_buffer_exec(data: &Vec<u8>, pos: usize) -> (r: Result<usize, DecodeError>)
    requires
        pos <= data@.len(),
    ensures
        match r {
            Ok(p) => skip_tag_buffer(data@, pos as int) == Some(p as int) && p <= data@.len(),
            Err(e) => skip_tag_buffer(data@, pos as int) is None && e == DecodeError::TruncatedInput,
        },
{
    let len = data.len();
    let (count, p1) = match read_uvarint(data, pos, len) {
        Err(e) => {
            return Err(e);
        },
        Ok(x) => x,
    };
    let mut cur: usize = p1;
    let mut rem: u32 = count;
    while rem > 0
        invariant
            cur <= len,
            len == data@.len(),
            pos <= len,
            skip_tag_buffer(data@, pos as int) == skip_tagged_fields(
                data@,
                cur as int,
                rem as int,
            ),
        decreases rem,
    {
        let (_tag, q1) = match read_uvarint(data, cur, len) {
            Err(e) => {
                return Err(e);
            },
            Ok(x) => x,
        };
        let (size, q2) = match read_uvarint(data, q1, len) {
            Err(e) => {
                return Err(e);
            },
            Ok(x) => x,
        };
        let su = size as usize;
        if su > len - q2 {
            return Err(DecodeError::TruncatedInput);
        }
        cur = q2 + su;
        rem = rem - 1;
    }
    Ok(cur)
}

/// Parse the nullable client id string that ends the common header part.
pub open spec fn parse_client_id(s: Seq<u8>) -> Option<(Option<Seq<u8>>, int)> {
    if s.len() < 10 {
        None
    } else {
        let n = be_i16(s, 8);
        if n == -1 {
            Some((None::<Seq<u8>>, 10))
        } else if n < 0 {
            None
        } else if 10 + n > s.len() {
            None
        } else {
            Some((Some(s.subrange(10, 10 + n)), 10 + n))
        }
    }
}

/// Parse the request header: key, version, correlation id, client id, and
/// (for header version 2) the tagged-field section. Yields the header and
/// the position where the body starts.
pub open spec fn parse_header_fields(s: Seq<u8>, hv: int) -> Option<(SpecRequestHeader, int)> {
    match parse_client_id(s) {
        None => None,
        Some((cid_opt, pos)) => {
            let h = SpecRequestHeader {
                api_key: be_i16(s, 0),
                api_version: be_i16(s, 2),
                correlation_id: be_i32(s, 4),
                client_id: cid_opt,
            };
            if hv >= 2 {
                match skip_tag_buffer(s, pos) {
                    None => None,
                    Some(p) => Some((h, p)),
                }
            } else {
                Some((h, pos))
            }
        },
    }
}

// --- request bodies -----------------------------------------------------------

/// A topic/partition discovery request: the requested names, in order.
#[derive(Debug, PartialEq)]
pub struct DescribeTopicPartitionsRequest {
    pub topics: Vec<Vec<u8>>,
}

/// The interpretation of a sequence of byte-string names.
pub open spec fn names_view(v: Seq<Vec<u8>>) -> Seq<Seq<u8>> {
    v.map_values(|x: Vec<u8>| x@)
}

/// One topic of a record retrieval request: addressed by topic id, with the
/// requested partition indices in order.
#[derive(Debug, PartialEq)]
pub struct FetchTopic {
    pub topic_id: Vec<u8>,
    pub partitions: Vec<i32>,
}

/// The mathematical shadow of `FetchTopic`.
pub struct SpecFetchTopic {
    pub topic_id: Seq<u8>,
    pub partitions: Seq<i32>,
}

impl View for FetchTopic {
    type V = SpecFetchTopic;

    open spec fn view(&self) -> SpecFetchTopic {
        SpecFetchTopic { topic_id: self.topic_id@, partitions: self.partitions@ }
    }
}

/// A record retrieval request.
#[derive(Debug, PartialEq)]
pub struct FetchRequest {
    pub topics: Vec<FetchTopic>,
}

/// The interpretation of a sequence of fetch request topics.
pub open spec fn fetch_topics_view(v: Seq<FetchTopic>) -> Seq<SpecFetchTopic> {
    v.map_values(|t: FetchTopic| t@)
}

/// Parse `n` discovery request topics: each a compact-string name and a
/// tagged-field section.
pub open spec fn parse_topic_names(s: Seq<u8>, pos: int, n: int) -> Option<Seq<Seq<u8>>>
    decreases n,
{
    let end = s.len() as int;
    if n <= 0 {
        Some(Seq::<Seq<u8>>::empty())
    } else if !uvarint_ok(s, pos, end, 0) {
        None
    } else {
        let c = uvarint_val(s, pos, end, 0, 0);
        let p = pos + uvarint_len(s, pos, end, 0);
        if c == 0 {
            None
        } else {
            let nlen = c - 1;
            if p + nlen > end {
                None
            } else {
                let name = s.subrange(p, p + nlen);
                match skip_tag_buffer(s, p + nlen) {
                    None => None,
                    Some(p2) => match parse_topic_names(s, p2, n - 1) {
                        None => None,
                        Some(rest) => Some(seq![name] + rest),
                    },
                }
            }
        }
    }
}

/// Parse a discovery request body: the compact array of topics. Fields
/// after the topics (partition limit, pagination cursor) are not read.
pub open spec fn parse_describe_body(s: Seq<u8>, pos: int) -> Option<Seq<Seq<u8>>> {
    let end = s.len() as int;
    if !uvarint_ok(s, pos, end, 0) {
        None
    } else {
        let c = uvarint_val(s, pos, end, 0, 0);
        let p = pos + uvarint_len(s, pos, end, 0);
        if c == 0 {
            Some(Seq::<Seq<u8>>::empty())
        } else {
            parse_topic_names(s, p, c as int - 1)
        }
    }
}

/// Parse `n` fetch request partitions: each a 32-byte fixed part (whose
/// first four bytes are the partition index) and a tagged-field section.
/// Yields the indices and the position after them.
pub open spec fn parse_fetch_partitions(s: Seq<u8>, pos: int, n: int) -> Option<(Seq<i32>, int)>
    decreases n,
{
    let end = s.len() as int;
    if n <= 0 {
        Some((Seq::<i32>::empty(), pos))
    } else if pos + 32 > end {
        None
    } else {
        let pidx = be_i32(s, pos) as i32;
        match skip_tag_buffer(s, pos + 32) {
            None => None,
            Some(p2) => match parse_fetch_partitions(s, p2, n - 1) {
                None => None,
                Some((rest, pend)) => Some((seq![pidx] + rest, pend)),
            },
        }
    }
}

/// Parse `n` fetch request topics: each a 16-byte topic id, the compact
/// array of partitions, and a tagged-field section.
pub open spec fn parse_fetch_topics(s: Seq<u8>, pos: int, n: int) -> Option<Seq<SpecFetchTopic>>
    decreases n,
{
    let end = s.len() as int;
    if n <= 0 {
        Some(Seq::<SpecFetchTopic>::empty())
    } else if pos + 16 > end {
        None
    } else {
        let id = s.subrange(pos, pos + 16);
        let p = pos + 16;
        if !uvarint_ok(s, p, end, 0) {
            None
        } else {
            let pc = uvarint_val(s, p, end, 0, 0);
            let p2 = p + uvarint_len(s, p, end, 0);
            let parts_r = if pc == 0 {
                Some((Seq::<i32>::empty(), p2))
            } else {
                parse_fetch_partitions(s, p2, pc as int - 1)
            };
            match parts_r {
                None => None,
                Some((parts, p3)) => match skip_tag_buffer(s, p3) {
                    None => None,
                    Some(p4) => match parse_fetch_topics(s, p4, n - 1) {
                        None => None,
                        Some(rest) => Some(
                            seq![SpecFetchTopic { topic_id: id, partitions: parts }] + rest,
                        ),
                    },
                },
            }
        }
    }
}

/// Parse a fetch request body (topic-id addressed layout): 21 bytes of
/// fixed fields, then the compact array of topics. Fields after the topics
/// (forgotten topics, rack id) are not read.
pub open spec fn parse_fetch_body(s: Seq<u8>, pos: int) -> Option<Seq<SpecFetchTopic>> {
    let end = s.len() as int;
    if pos + 21 > end {
        None
    } else {
        let p = pos + 21;
        if !uvarint_ok(s, p, end, 0) {
            None
        } else {
            let c = uvarint_val(s, p, end, 0, 0);
            let p2 = p + uvarint_len(s, p, end, 0);
            if c == 0 {
                Some(Seq::<SpecFetchTopic>::empty())
            } else {
                parse_fetch_topics(s, p2, c as int - 1)
            }
        }
    }
}

// --- the router ---------------------------------------------------------------

/// A decoded request body, tagged by its API.
#[derive(Debug, PartialEq)]
pub enum DecodedRequest {
    /// Capability negotiation ignores its body entirely.
    ApiVersions,
    DescribeTopicPartitions(DescribeTopicPartitionsRequest),
    Fetch(FetchRequest),
}

/// What the router hands back for one inbound frame.
#[derive(Debug, PartialEq)]
pub enum Routed {
    /// The short-circuit response for a version outside the advertised range.
    VersionError(Vec<u8>),
    /// A validated header and decoded body, ready for a handler.
    Request(RequestHeader, DecodedRequest),
}

/// The router's meaning, as a function of the frame bytes.
pub enum SpecRouted {
    /// The header or body bytes do not parse.
    Malformed,
    /// The frame names an API this broker has no handler for.
    UnknownKey,
    VersionError(Seq<u8>),
    ApiVersions(SpecRequestHeader),
    Describe(SpecRequestHeader, Seq<Seq<u8>>),
    Fetch(SpecRequestHeader, Seq<SpecFetchTopic>),
}

pub open spec fn spec_route(s: Seq<u8>) -> SpecRouted {
    if s.len() < 8 {
        SpecRouted::Malformed
    } else {
        match ApiKey::spec_from_code(be_i16(s, 0)) {
            None => SpecRouted::UnknownKey,
            Some(key) => {
                let ver = be_i16(s, 2);
                match parse_header_fields(s, spec_header_version(key, ver)) {
                    None => SpecRouted::Malformed,
                    Some((h, body_pos)) => if !spec_version_supported(key, ver) {
                        SpecRouted::VersionError(spec_error_frame(h.correlation_id, 35))
                    } else {
                        match key {
                            ApiKey::ApiVersions => SpecRouted::ApiVersions(h),
                            ApiKey::DescribeTopicPartitions => match parse_describe_body(
                                s,
                                body_pos,
                            ) {
                                None => SpecRouted::Malformed,
                                Some(names) => SpecRouted::Describe(h, names),
                            },
                            ApiKey::Fetch => if ver < 13 {
                                SpecRouted::Malformed
                            } else {
                                match parse_fetch_body(s, body_pos) {
                                    None => SpecRouted::Malformed,
                                    Some(ts) => SpecRouted::Fetch(h, ts),
                                }
                            },
                        }
                    },
                }
            },
        }
    }
}

/// For any frame whose version lies within the advertised range for its
/// API, the router never produces the version short-circuit.
pub proof fn lemma_supported_version_no_short_circuit(s: Seq<u8>, key: ApiKey)
    requires
        ApiKey::spec_from_code(be_i16(s, 0)) == Some(key),
        spec_version_supported(key, be_i16(s, 2)),
    ensures
        !(spec_route(s) is VersionError),
{
}

/// For a frame whose version lies outside the advertised range, the router
/// returns exactly the short-circuit frame — message size 4, the echoed
/// correlation id, error code 35 — whatever the body bytes hold.
pub proof fn lemma_unsupported_version_short_circuit(
    s: Seq<u8>,
    key: ApiKey,
    h: SpecRequestHeader,
    body_pos: int,
)
    requires
        s.len() >= 8,
        ApiKey::spec_from_code(be_i16(s, 0)) == Some(key),
        parse_header_fields(s, spec_header_version(key, be_i16(s, 2))) == Some((h, body_pos)),
        !spec_version_supported(key, be_i16(s, 2)),
    ensures
        spec_route(s) == SpecRouted::VersionError(spec_error_frame(h.correlation_id, 35)),
{
}

/// A capability-negotiation request is routed on its header alone: with
/// the key and a supported version, the body bytes — whatever they hold —
/// never change the outcome, and no body is decoded.
pub proof fn lemma_api_versions_body_ignored(s: Seq<u8>, h: SpecRequestHeader, body_pos: int)
    requires
        s.len() >= 8,
        ApiKey::spec_from_code(be_i16(s, 0)) == Some(ApiKey::ApiVersions),
        parse_header_fields(s, spec_header_version(ApiKey::ApiVersions, be_i16(s, 2))) == Some(
            (h, body_pos),
        ),
        spec_version_supported(ApiKey::ApiVersions, be_i16(s, 2)),
    ensures
        spec_route(s) == SpecRouted::ApiVersions(h),
{
}

fn parse_describe_body_exec(data: &Vec<u8>, pos: usize) -> (r: Result<
    DescribeTopicPartitionsRequest,
    DecodeError,
>)
    requires
        pos <= data@.len(),
    ensures
        match r {
            Ok(req) => parse_describe_body(data@, pos as int) == Some(names_view(req.topics@)),
            Err(e) => parse_describe_body(data@, pos as int) is None && e
                == DecodeError::TruncatedInput,
        },
{
    let len = data.len();
    let (c, p) = match read_uvarint(data, pos, len) {
        Err(e) => {
            return Err(e);
        },
        Ok(x) => x,
    };
    let mut acc: Vec<Vec<u8>> = Vec::new();
    proof {
        assert(names_view(acc@) =~= Seq::<Seq<u8>>::empty());
    }
    if c == 0 {
        return Ok(DescribeTopicPartitionsRequest { topics: acc });
    }
    let mut cur: usize = p;
    let mut rem: u32 = c - 1;
    while rem > 0
        invariant
            cur <= len,
            len == data@.len(),
            pos <= len,
            match parse_topic_names(data@, cur as int, rem as int) {
                Some(rest) => parse_describe_body(data@, pos as int) == Some(
                    names_view(acc@) + rest,
                ),
                None => parse_describe_body(data@, pos as int) is None,
            },
        decreases rem,
    {
        let ghost acc_g = acc@;
        let (c2, p2) = match read_uvarint(data, cur, len) {
            Err(e) => {
                return Err(e);
            },
            Ok(x) => x,
        };
        if c2 == 0 {
            return Err(DecodeError::TruncatedInput);
        }
        let nlen = (c2 - 1) as usize;
        if nlen > len - p2 {
            return Err(DecodeError::TruncatedInput);
        }
        let name = copy_range(data, p2, p2 + nlen);
        let p3 = match skip_tag_buffer_exec(data, p2 + nlen) {
            Err(e) => {
                return Err(e);
            },
            Ok(x) => x,
        };
        acc.push(name);
        cur = p3;
        rem = rem - 1;
        proof {
            assert(names_view(acc@) =~= names_view(acc_g).push(acc@[acc@.len() - 1]@));
            match parse_topic_names(data@, cur as int, rem as int) {
                Some(rest) => {
                    assert(names_view(acc_g) + (seq![acc@[acc@.len() - 1]@] + rest) =~= names_view(
                        acc@,
                    ) + rest);
                },
                None => {},
            }
        }
    }
    proof {
        assert(names_view(acc@) + Seq::<Seq<u8>>::empty() =~= names_view(acc@));
    }
    Ok(DescribeTopicPartitionsRequest { topics: acc })
}

fn parse_fetch_partitions_exec(data: &Vec<u8>, pos: usize, n: u32) -> (r: Result<
    (Vec<i32>, usize),
    DecodeError,
>)
    requires
        pos <= data@.len(),
    ensures
        match r {
            Ok((ps, pend)) => parse_fetch_partitions(data@, pos as int, n as int) == Some(
                (ps@, pend as int),
            ) && pend <= data@.len(),
            Err(e) => parse_fetch_partitions(data@, pos as int, n as int) is None && e
                == DecodeError::TruncatedInput,
        },
{
    let len = data.len();
    let mut acc: Vec<i32> = Vec::new();
    let mut cur: usize = pos;
    let mut rem: u32 = n;
    while rem > 0
        invariant
            cur <= len,
            len == data@.len(),
            match parse_fetch_partitions(data@, cur as int, rem as int) {
                Some((rest, pend)) => parse_fetch_partitions(data@, pos as int, n as int) == Some(
                    (acc@ + rest, pend),
                ),
                None => parse_fetch_partitions(data@, pos as int, n as int) is None,
            },
        decreases rem,
    {
        let ghost acc_g = acc@;
        if 32 > len - cur {
            return Err(DecodeError::TruncatedInput);
        }
        let pidx = read_i32_be(data, cur);
        let p2 = match skip_tag_buffer_exec(data, cur + 32) {
            Err(e) => {
                return Err(e);
            },
            Ok(x) => x,
        };
        acc.push(pidx);
        cur = p2;
        rem = rem - 1;
        proof {
            match parse_fetch_partitions(data@, cur as int, rem as int) {
                Some((rest, pend)) => {
                    assert(acc_g + (seq![pidx] + rest) =~= acc@ + rest);
                },
                None => {},
            }
        }
    }
    proof {
        assert(acc@ + Seq::<i32>::empty() =~= acc@);
    }
    Ok((acc, cur))
}

fn parse_fetch_body_exec(data: &Vec<u8>, pos: usize) -> (r: Result<FetchRequest, DecodeError>)
    requires
        pos <= data@.len(),
    ensures
        match r {
            Ok(req) => parse_fetch_body(data@, pos as int) == Some(fetch_topics_view(req.topics@)),
            Err(e) => parse_fetch_body(data@, pos as int) is None && e
                == DecodeError::TruncatedInput,
        },
{
    let len = data.len();
    if 21 > len - pos {
        return Err(DecodeError::TruncatedInput);
    }
    let (c, p2) = match read_uvarint(data, pos + 21, len) {
        Err(e) => {
            return Err(e);
        },
        Ok(x) => x,
    };
    let mut acc: Vec<FetchTopic> = Vec::new();
    proof {
        assert(fetch_topics_view(acc@) =~= Seq::<SpecFetchTopic>::empty());
    }
    if c == 0 {
        return Ok(FetchRequest { topics: acc });
    }
    let mut cur: usize = p2;
    let mut rem: u32 = c - 1;
    while rem > 0
        invariant
            cur <= len,
            len == data@.len(),
            pos <= len,
            match parse_fetch_topics(data@, cur as int, rem as int) {
                Some(rest) => parse_fetch_body(data@, pos as int) == Some(
                    fetch_topics_view(acc@) + rest,
                ),
                None => parse_fetch_body(data@, pos as int) is None,
            },
        decreases rem,
    {
        let ghost acc_g = acc@;
        if 16 > len - cur {
            return Err(DecodeError::TruncatedInput);
        }
        let id = copy_range(data, cur, cur + 16);
        let (pc, q2) = match read_uvarint(data, cur + 16, len) {
            Err(e) => {
                return Err(e);
            },
            Ok(x) => x,
        };
        let (parts, p3) = if pc == 0 {
            (Vec::new(), q2)
        } else {
            match parse_fetch_partitions_exec(data, q2, pc - 1) {
                Err(e) => {
                    return Err(e);
                },
                Ok(x) => x,
            }
        };
        let p4 = match skip_tag_buffer_exec(data, p3) {
            Err(e) => {
                return Err(e);
            },
            Ok(x) => x,
        };
        let topic = FetchTopic { topic_id: id, partitions: parts };
        acc.push(topic);
        cur = p4;
        rem = rem - 1;
        proof {
            assert(fetch_topics_view(acc@) =~= fetch_topics_view(acc_g).push(
                acc@[acc@.len() - 1]@,
            ));
            match parse_fetch_topics(data@, cur as int, rem as int) {
                Some(rest) => {
                    assert(fetch_topics_view(acc_g) + (seq![acc@[acc@.len() - 1]@] + rest)
                        =~= fetch_topics_view(acc@) + rest);
                },
                None => {},
            }
        }
    }
    proof {
        assert(fetch_topics_view(acc@) + Seq::<SpecFetchTopic>::empty() =~= fetch_topics_view(
            acc@,
        ));
    }
    Ok(FetchRequest { topics: acc })
}

/// Route one inbound frame: decode and validate the header, then decode the
/// body for the API it names. A version outside the advertised range yields
/// the short-circuit error response instead; malformed bytes or an
/// unhandled API abort only this request.
pub fn route(frame: &Vec<u8>) -> (r: Result<Routed, DecodeError>)
    ensures
        match r {
            Ok(routed) => match routed {
                Routed::VersionError(b) => spec_route(frame@) == SpecRouted::VersionError(b@),
                Routed::Request(h, req) => match req {
                    DecodedRequest::ApiVersions => spec_route(frame@) == SpecRouted::ApiVersions(
                        h@,
                    ),
                    DecodedRequest::DescribeTopicPartitions(d) => spec_route(frame@)
                        == SpecRouted::Describe(h@, names_view(d.topics@)),
                    DecodedRequest::Fetch(f) => spec_route(frame@) == SpecRouted::Fetch(
                        h@,
                        fetch_topics_view(f.topics@),
                    ),
                },
            },
            Err(e) => match e {
                DecodeError::TruncatedInput => spec_route(frame@) is Malformed,
                DecodeError::UnknownApiKey => spec_route(frame@) is UnknownKey,
                DecodeError::CorruptLog => false,
            },
        },
{
    let len = frame.len();
    if len < 8 {
        return Err(DecodeError::TruncatedInput);
    }
    let keycode = read_i16_be(frame, 0);
    let ver = read_i16_be(frame, 2);
    let key = match ApiKey::from_code(keycode) {
        None => {
            return Err(DecodeError::UnknownApiKey);
        },
        Some(k) => k,
    };
    let hv = request_header_version(key, ver);
    if len < 10 {
        return Err(DecodeError::TruncatedInput);
    }
    let cid = read_i32_be(frame, 4);
    let n = read_i16_be(frame, 8);
    let (client_id, pos): (Option<Vec<u8>>, usize) = if n == -1 {
        (None, 10)
    } else if n < 0 {
        return Err(DecodeError::TruncatedInput);
    } else {
        let nu = n as usize;
        if nu > len - 10 {
            return Err(DecodeError::TruncatedInput);
        }
        (Some(copy_range(frame, 10, 10 + nu)), 10 + nu)
    };
    let body_pos = if hv >= 2 {
        match skip_tag_buffer_exec(frame, pos) {
            Err(e) => {
                return Err(e);
            },
            Ok(p) => p,
        }
    } else {
        pos
    };
    let header = RequestHeader { api_key: keycode, api_version: ver, correlation_id: cid, client_id };
    if !check_version(key, ver) {
        let resp = response_with_error(cid, ErrorCode::UnsupportedVersion);
        return Ok(Routed::VersionError(resp));
    }
    match key {
        ApiKey::ApiVersions => Ok(Routed::Request(header, DecodedRequest::ApiVersions)),
        ApiKey::DescribeTopicPartitions => match parse_describe_body_exec(frame, body_pos) {
            Err(e) => Err(e),
            Ok(req) => Ok(
                Routed::Request(header, DecodedRequest::DescribeTopicPartitions(req)),
            ),
        },
        ApiKey::Fetch => {
            if ver < 13 {
                return Err(DecodeError::TruncatedInput);
            }
            match parse_fetch_body_exec(frame, body_pos) {
                Err(e) => Err(e),
                Ok(req) => Ok(Routed::Request(header, DecodedRequest::Fetch(req))),
            }
        },
    }
}

} // verus!
