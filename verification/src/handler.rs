//! The response builders: one per supported request kind, each consuming
//! the topic index and producing a structured response with per-item error
//! codes. Output ordering always follows the request, never the index.
//!
//! The record retrieval handler cannot read partition logs itself; it is
//! split in two. `fetch_plan` names the reads a request needs, the caller
//! performs them, and `handle_fetch` assembles the response from the
//! request, the index, and the read results — whatever those turned out
//! to be.
use vstd::prelude::*;

use crate::api_key::{spec_api_table, supported_apis};
use crate::metadata::{
    entries_view, find_entry, find_entry_by_id, find_id, find_name, lemma_find_name_range,
    topic_index_of, SpecTopicEntry, TopicIndex,
};
use crate::requests::{DescribeTopicPartitionsRequest, FetchRequest, SpecFetchTopic};
use crate::responses::{
    fetch_partitions_view, ApiVersionsResponse, DescribePartition, DescribeTopic,
    DescribeTopicPartitionsResponse, FetchPartition, FetchResponse, FetchTopicResponse,
    SpecDescribeTopic, SpecFetchPartition, SpecFetchTopicResponse,
};
use crate::wire::copy_bytes;

verus! {

/// Build the capability-negotiation response: the full static table with
/// no top-level error. The request body plays no part in it.
pub fn handle_api_versions() -> (r: ApiVersionsResponse)
    ensures
        r.error_code == 0,
        r.api_keys@ == spec_api_table(),
{
    ApiVersionsResponse { error_code: 0, api_keys: supported_apis() }
}

/// The all-zero topic id standing for an absent topic.
pub open spec fn zero_topic_id() -> Seq<u8> {
    Seq::new(16, |i: int| 0u8)
}

fn make_zero_topic_id() -> (r: Vec<u8>)
    ensures
        r@ == zero_topic_id(),
{
    let mut v: Vec<u8> = Vec::new();
    let mut i: usize = 0;
    while i < 16
        invariant
            i <= 16,
            v@.len() == i,
            forall|j: int| 0 <= j < i ==> v@[j] == 0u8,
        decreases 16 - i,
    {
        v.push(0u8);
        i = i + 1;
    }
    proof {
        assert(v@ =~= zero_topic_id());
    }
    v
}

/// What the discovery response holds for one requested name: the recorded
/// id and partitions when the index knows the name, the unknown-topic
/// error with an all-zero id otherwise. The name is always echoed.
pub open spec fn spec_describe_topic(ix: Seq<SpecTopicEntry>, name: Seq<u8>) -> SpecDescribeTopic {
    let k = find_name(ix, name);
    if k >= 0 {
        SpecDescribeTopic {
            error_code: 0,
            name: name,
            topic_id: ix[k].topic_id,
            is_internal: false,
            partitions: ix[k].partitions.map_values(
                |p: i32| DescribePartition { error_code: 0, partition_index: p },
            ),
        }
    } else {
        SpecDescribeTopic {
            error_code: 3,
            name: name,
            topic_id: zero_topic_id(),
            is_internal: false,
            partitions: Seq::<DescribePartition>::empty(),
        }
    }
}

/// Build the discovery response: one entry per requested name, in request
/// order.
pub fn handle_describe_topic_partitions(
    req: &DescribeTopicPartitionsRequest,
    index: &TopicIndex,
) -> (r: DescribeTopicPartitionsResponse)
    ensures
        r.topics@.len() == req.topics@.len(),
        forall|i: int|
            0 <= i < req.topics@.len() ==> (#[trigger] r.topics@[i])@ == spec_describe_topic(
                index@,
                req.topics@[i]@,
            ),
        forall|i: int|
            0 <= i < req.topics@.len() ==> (#[trigger] r.topics@[i])@.name == req.topics@[i]@,
{
    let mut out: Vec<DescribeTopic> = Vec::new();
    let n = req.topics.len();
    let mut i: usize = 0;
    while i < n
        invariant
            i <= n,
            n == req.topics@.len(),
            out@.len() == i,
            forall|j: int|
                0 <= j < i ==> (#[trigger] out@[j])@ == spec_describe_topic(
                    index@,
                    req.topics@[j]@,
                ),
        decreases n - i,
    {
        let name = &req.topics[i];
        let t = match find_entry(&index.topics, name) {
            Some(k) => {
                proof {
                    assert(entries_view(index.topics@)[k as int] == index.topics@[k as int]@);
                }
                let e = &index.topics[k];
                let mut parts: Vec<DescribePartition> = Vec::new();
                let pn = e.partitions.len();
                let mut j: usize = 0;
                while j < pn
                    invariant
                        j <= pn,
                        pn == e.partitions@.len(),
                        parts@.len() == j,
                        forall|m: int|
                            0 <= m < j ==> parts@[m] == (DescribePartition {
                                error_code: 0,
                                partition_index: e.partitions@[m],
                            }),
                    decreases pn - j,
                {
                    parts.push(
                        DescribePartition { error_code: 0, partition_index: e.partitions[j] },
                    );
                    j = j + 1;
                }
                proof {
                    assert(parts@ =~= e@.partitions.map_values(
                        |p: i32| DescribePartition { error_code: 0, partition_index: p },
                    ));
                }
                DescribeTopic {
                    error_code: 0,
                    name: copy_bytes(name),
                    topic_id: copy_bytes(&e.topic_id),
                    is_internal: false,
                    partitions: parts,
                }
            },
            None => DescribeTopic {
                error_code: 3,
                name: copy_bytes(name),
                topic_id: make_zero_topic_id(),
                is_internal: false,
                partitions: Vec::new(),
            },
        };
        out.push(t);
        i = i + 1;
        proof {
            assert((out@[i as int - 1])@ == spec_describe_topic(index@, req.topics@[i as int - 1]@));
        }
    }
    DescribeTopicPartitionsResponse { topics: out }
}

// --- record retrieval ---------------------------------------------------------

/// One planned partition-log read: the indexed topic's name and the
/// requested partition index (the path is derived from the two).
#[derive(Debug, PartialEq)]
pub struct PartitionRead {
    pub name: Vec<u8>,
    pub partition: i32,
}

/// The mathematical shadow of `PartitionRead`.
pub struct SpecPartitionRead {
    pub name: Seq<u8>,
    pub partition: i32,
}

impl View for PartitionRead {
    type V = SpecPartitionRead;

    open spec fn view(&self) -> SpecPartitionRead {
        SpecPartitionRead { name: self.name@, partition: self.partition }
    }
}

/// The interpretation of a sequence of planned reads.
pub open spec fn plan_view(v: Seq<PartitionRead>) -> Seq<SpecPartitionRead> {
    v.map_values(|x: PartitionRead| x@)
}

/// The reads one fetch topic needs: one per requested partition when the
/// index knows the topic id, none otherwise.
pub open spec fn spec_fetch_plan_topic(ix: Seq<SpecTopicEntry>, t: SpecFetchTopic) -> Seq<
    SpecPartitionRead,
> {
    let k = find_id(ix, t.topic_id);
    if k >= 0 {
        t.partitions.map_values(|p: i32| SpecPartitionRead { name: ix[k].name, partition: p })
    } else {
        Seq::<SpecPartitionRead>::empty()
    }
}

/// Plan the partition-log reads a fetch request needs: one list per
/// requested topic, in request order. All of them may be performed
/// concurrently; the response is assembled in request order afterwards.
pub fn fetch_plan(req: &FetchRequest, index: &TopicIndex) -> (r: Vec<Vec<PartitionRead>>)
    ensures
        r@.len() == req.topics@.len(),
        forall|i: int|
            0 <= i < req.topics@.len() ==> plan_view((#[trigger] r@[i])@) == spec_fetch_plan_topic(
                index@,
                req.topics@[i]@,
            ),
{
    let mut out: Vec<Vec<PartitionRead>> = Vec::new();
    let n = req.topics.len();
    let mut i: usize = 0;
    while i < n
        invariant
            i <= n,
            n == req.topics@.len(),
            out@.len() == i,
            forall|j: int|
                0 <= j < i ==> plan_view((#[trigger] out@[j])@) == spec_fetch_plan_topic(
                    index@,
                    req.topics@[j]@,
                ),
        decreases n - i,
    {
        let t = &req.topics[i];
        let reads: Vec<PartitionRead> = match find_entry_by_id(&index.topics, &t.topic_id) {
            Some(k) => {
                proof {
                    assert(entries_view(index.topics@)[k as int] == index.topics@[k as int]@);
                }
                let e = &index.topics[k];
                let mut acc: Vec<PartitionRead> = Vec::new();
                let pn = t.partitions.len();
                let mut j: usize = 0;
                while j < pn
                    invariant
                        j <= pn,
                        pn == t.partitions@.len(),
                        acc@.len() == j,
                        forall|m: int|
                            0 <= m < j ==> (#[trigger] acc@[m])@ == (SpecPartitionRead {
                                name: e.name@,
                                partition: t.partitions@[m],
                            }),
                    decreases pn - j,
                {
                    acc.push(PartitionRead { name: copy_bytes(&e.name), partition: t.partitions[j] });
                    j = j + 1;
                }
                proof {
                    assert(plan_view(acc@) =~= t@.partitions.map_values(
                        |p: i32| SpecPartitionRead { name: index@[k as int].name, partition: p },
                    ));
                }
                acc
            },
            None => Vec::new(),
        };
        out.push(reads);
        i = i + 1;
        proof {
            assert(plan_view((out@[i as int - 1])@) == spec_fetch_plan_topic(
                index@,
                req.topics@[i as int - 1]@,
            ));
        }
    }
    out
}

/// The interpretation of a sequence of optional read results.
pub open spec fn opt_reads_view(v: Seq<Option<Vec<u8>>>) -> Seq<Option<Seq<u8>>> {
    v.map_values(
        |o: Option<Vec<u8>>|
            match o {
                Some(b) => Some(b@),
                None => None,
            },
    )
}

/// What the fetch response holds for one requested topic. An id absent
/// from the index yields a single partition-less unknown-topic-id entry.
/// A known id yields one entry per requested partition, in request order:
/// the raw read bytes with no error where the read succeeded, the
/// unknown-topic-or-partition error where it did not.
pub open spec fn spec_fetch_topic_response(
    ix: Seq<SpecTopicEntry>,
    t: SpecFetchTopic,
    reads: Seq<Option<Seq<u8>>>,
) -> SpecFetchTopicResponse {
    let k = find_id(ix, t.topic_id);
    if k < 0 {
        SpecFetchTopicResponse {
            topic_id: t.topic_id,
            partitions: seq![
                SpecFetchPartition { partition_index: 0, error_code: 100, records: None },
            ],
        }
    } else {
        SpecFetchTopicResponse {
            topic_id: t.topic_id,
            partitions: Seq::new(
                t.partitions.len(),
                |j: int|
                    if reads[j] is Some {
                        SpecFetchPartition {
                            partition_index: t.partitions[j],
                            error_code: 0,
                            records: reads[j],
                        }
                    } else {
                        SpecFetchPartition {
                            partition_index: t.partitions[j],
                            error_code: 3,
                            records: None,
                        }
                    },
            ),
        }
    }
}

/// Whether the read results fit the request: one list per requested topic,
/// sized to the requested partitions for every topic the index knows.
pub open spec fn fetch_reads_ok(
    req: &FetchRequest,
    index: &TopicIndex,
    reads: &Vec<Vec<Option<Vec<u8>>>>,
) -> bool {
    reads@.len() == req.topics@.len() && (forall|i: int|
        0 <= i < req.topics@.len() && find_id(index@, req.topics@[i]@.topic_id) >= 0 ==> (
        #[trigger] reads@[i])@.len() == req.topics@[i]@.partitions.len())
}

/// Check `fetch_reads_ok` at run time, so a caller outside the verified
/// world can test it before calling `handle_fetch`.
pub fn fetch_reads_match(
    req: &FetchRequest,
    index: &TopicIndex,
    reads: &Vec<Vec<Option<Vec<u8>>>>,
) -> (r: bool)
    ensures
        r == fetch_reads_ok(req, index, reads),
{
    if reads.len() != req.topics.len() {
        return false;
    }
    let n = req.topics.len();
    let mut i: usize = 0;
    while i < n
        invariant
            i <= n,
            n == req.topics@.len(),
            reads@.len() == n,
            forall|j: int|
                0 <= j < i && find_id(index@, req.topics@[j]@.topic_id) >= 0 ==> (
                #[trigger] reads@[j])@.len() == req.topics@[j]@.partitions.len(),
        decreases n - i,
    {
        let t = &req.topics[i];
        match find_entry_by_id(&index.topics, &t.topic_id) {
            Some(_) => {
                if reads[i].len() != t.partitions.len() {
                    proof {
                        assert(find_id(index@, req.topics@[i as int]@.topic_id) >= 0);
                        assert(!fetch_reads_ok(req, index, reads));
                    }
                    return false;
                }
            },
            None => {},
        }
        i = i + 1;
    }
    true
}

/// Assemble the fetch response from the request, the index, and the read
/// results, one per planned read of each known topic.
pub fn handle_fetch(
    req: &FetchRequest,
    index: &TopicIndex,
    reads: &Vec<Vec<Option<Vec<u8>>>>,
) -> (r: FetchResponse)
    requires
        fetch_reads_ok(req, index, reads),
    ensures
        r.responses@.len() == req.topics@.len(),
        forall|i: int|
            0 <= i < req.topics@.len() ==> (#[trigger] r.responses@[i])@
                == spec_fetch_topic_response(
                index@,
                req.topics@[i]@,
                opt_reads_view(reads@[i]@),
            ),
{
    let mut out: Vec<FetchTopicResponse> = Vec::new();
    let n = req.topics.len();
    let mut i: usize = 0;
    while i < n
        invariant
            i <= n,
            n == req.topics@.len(),
            reads@.len() == n,
            forall|j: int|
                0 <= j < n && find_id(index@, req.topics@[j]@.topic_id) >= 0 ==> (
                #[trigger] reads@[j])@.len() == req.topics@[j]@.partitions.len(),
            out@.len() == i,
            forall|j: int|
                0 <= j < i ==> (#[trigger] out@[j])@ == spec_fetch_topic_response(
                    index@,
                    req.topics@[j]@,
                    opt_reads_view(reads@[j]@),
                ),
        decreases n - i,
    {
        let t = &req.topics[i];
        let tr = match find_entry_by_id(&index.topics, &t.topic_id) {
            None => {
                let mut parts: Vec<FetchPartition> = Vec::new();
                parts.push(FetchPartition { partition_index: 0, error_code: 100, records: None });
                let tr = FetchTopicResponse { topic_id: copy_bytes(&t.topic_id), partitions: parts };
                proof {
                    assert(fetch_partitions_view(tr.partitions@) =~= seq![
                        SpecFetchPartition { partition_index: 0, error_code: 100, records: None },
                    ]);
                }
                tr
            },
            Some(_) => {
                let rv = &reads[i];
                let pn = t.partitions.len();
                proof {
                    assert(rv@.len() == pn);
                }
                let mut parts: Vec<FetchPartition> = Vec::new();
                let mut j: usize = 0;
                while j < pn
                    invariant
                        j <= pn,
                        pn == t.partitions@.len(),
                        rv@.len() == pn,
                        parts@.len() == j,
                        forall|m: int|
                            0 <= m < j ==> (#[trigger] parts@[m])@ == (match rv@[m] {
                                Some(b) => SpecFetchPartition {
                                    partition_index: t.partitions@[m],
                                    error_code: 0,
                                    records: Some(b@),
                                },
                                None => SpecFetchPartition {
                                    partition_index: t.partitions@[m],
                                    error_code: 3,
                                    records: None,
                                },
                            }),
                    decreases pn - j,
                {
                    match &rv[j] {
                        Some(b) => {
                            parts.push(
                                FetchPartition {
                                    partition_index: t.partitions[j],
                                    error_code: 0,
                                    records: Some(copy_bytes(b)),
                                },
                            );
                        },
                        None => {
                            parts.push(
                                FetchPartition {
                                    partition_index: t.partitions[j],
                                    error_code: 3,
                                    records: None,
                                },
                            );
                        },
                    }
                    j = j + 1;
                }
                let tr = FetchTopicResponse { topic_id: copy_bytes(&t.topic_id), partitions: parts };
                proof {
                    assert(fetch_partitions_view(tr.partitions@) =~= spec_fetch_topic_response(
                        index@,
                        t@,
                        opt_reads_view(rv@),
                    ).partitions);
                }
                tr
            },
        };
        out.push(tr);
        i = i + 1;
        proof {
            assert((out@[i as int - 1])@ == spec_fetch_topic_response(
                index@,
                req.topics@[i as int - 1]@,
                opt_reads_view(reads@[i as int - 1]@),
            ));
        }
    }
    FetchResponse { responses: out }
}

// --- laws ---------------------------------------------------------------------

/// Round trip: a topic name present in the index read from the metadata
/// log is answered with no error, the recorded topic id, and the recorded
/// partitions in first-seen order.
pub proof fn lemma_discovery_round_trip(log: Seq<u8>, ix: Seq<SpecTopicEntry>, name: Seq<u8>)
    requires
        topic_index_of(log) == Some(ix),
        find_name(ix, name) >= 0,
    ensures
        spec_describe_topic(ix, name).error_code == 0,
        spec_describe_topic(ix, name).name == name,
        spec_describe_topic(ix, name).topic_id == ix[find_name(ix, name)].topic_id,
        ix[find_name(ix, name)].name == name,
        spec_describe_topic(ix, name).partitions.len() == ix[find_name(
            ix,
            name,
        )].partitions.len(),
        forall|j: int|
            0 <= j < ix[find_name(ix, name)].partitions.len() ==> spec_describe_topic(
                ix,
                name,
            ).partitions[j] == (DescribePartition {
                error_code: 0,
                partition_index: ix[find_name(ix, name)].partitions[j],
            }),
{
    lemma_find_name_range(ix, name, 0);
}

/// A name absent from the index is answered with the unknown-topic error,
/// the all-zero topic id, and no partitions.
pub proof fn lemma_discovery_unknown_topic(ix: Seq<SpecTopicEntry>, name: Seq<u8>)
    requires
        find_name(ix, name) == -1,
    ensures
        spec_describe_topic(ix, name) == (SpecDescribeTopic {
            error_code: 3,
            name: name,
            topic_id: zero_topic_id(),
            is_internal: false,
            partitions: Seq::<DescribePartition>::empty(),
        }),
{
}

/// A fetch for a topic id absent from the index yields exactly one entry:
/// the unknown-topic-id error, with no records.
pub proof fn lemma_fetch_unknown_topic_id(
    ix: Seq<SpecTopicEntry>,
    t: SpecFetchTopic,
    reads: Seq<Option<Seq<u8>>>,
)
    requires
        find_id(ix, t.topic_id) == -1,
    ensures
        spec_fetch_topic_response(ix, t, reads).topic_id == t.topic_id,
        spec_fetch_topic_response(ix, t, reads).partitions == seq![
            SpecFetchPartition { partition_index: 0, error_code: 100, records: None },
        ],
{
}

/// A fetch for a known topic id echoes each requested partition in request
/// order and, where its log was read, returns the raw bytes verbatim with
/// no error.
pub proof fn lemma_fetch_known_topic(
    ix: Seq<SpecTopicEntry>,
    t: SpecFetchTopic,
    reads: Seq<Option<Seq<u8>>>,
    j: int,
)
    requires
        find_id(ix, t.topic_id) >= 0,
        reads.len() == t.partitions.len(),
        0 <= j < t.partitions.len(),
    ensures
        spec_fetch_topic_response(ix, t, reads).partitions.len() == t.partitions.len(),
        spec_fetch_topic_response(ix, t, reads).partitions[j].partition_index == t.partitions[j],
        reads[j] is Some ==> spec_fetch_topic_response(ix, t, reads).partitions[j] == (
        SpecFetchPartition {
            partition_index: t.partitions[j],
            error_code: 0,
            records: reads[j],
        }),
        reads[j] is None ==> spec_fetch_topic_response(ix, t, reads).partitions[j] == (
        SpecFetchPartition { partition_index: t.partitions[j], error_code: 3, records: None }),
{
}

} // verus!
