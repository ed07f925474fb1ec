//! The cluster-metadata log reader: decodes the byte buffer as a sequence
//! of record batches and folds the records into a topic index mapping each
//! topic name to its id and the partition indices declared for it.
//!
//! A batch is framed by a base offset (8 bytes), a 4-byte length, and a
//! 49-byte batch header whose last field is the record count; the records
//! follow, each prefixed with its zigzag-varint length. A batch that cannot
//! be framed this way is a hard stream error; a record inside a well-framed
//! batch that does not look like a topic or partition record is skipped.
//!
//! Within one batch the first record is the topic-record candidate and the
//! following ones its partition-record candidates: partitions whose embedded
//! topic id matches the batch's topic are appended in the order declared.
//! A later batch that declares the same topic name replaces the earlier
//! entry. Batches with fewer than two records contribute nothing.
use vstd::prelude::*;

use crate::error::DecodeError;
use crate::records::{parse_record_content, parse_record_value, Record, SpecRecord};
use crate::wire::{be_u32, bytes_eq, copy_bytes, copy_range, read_u32_be};
use crate::{read_zigzag, uvarint_len, uvarint_ok, uvarint_val, zigzag_decode};

verus! {

/// One parsed record batch: the ordered records it carries.
#[derive(Debug, PartialEq)]
pub struct RecordBatch {
    pub records: Vec<Record>,
}

/// The interpretation of a sequence of parsed records.
pub open spec fn recs_view(rs: Seq<Record>) -> Seq<SpecRecord> {
    rs.map_values(|r: Record| r@)
}

impl View for RecordBatch {
    type V = Seq<SpecRecord>;

    open spec fn view(&self) -> Seq<SpecRecord> {
        recs_view(self.records@)
    }
}

/// The interpretation of a sequence of parsed batches.
pub open spec fn batches_view(bs: Seq<RecordBatch>) -> Seq<Seq<SpecRecord>> {
    bs.map_values(|b: RecordBatch| b@)
}

/// One topic of the index: its name, id, and partition indices in the order
/// first declared (duplicates are kept as declared, not removed).
#[derive(Debug, PartialEq)]
pub struct TopicEntry {
    pub name: Vec<u8>,
    pub topic_id: Vec<u8>,
    pub partitions: Vec<i32>,
}

/// The mathematical shadow of `TopicEntry`.
pub struct SpecTopicEntry {
    pub name: Seq<u8>,
    pub topic_id: Seq<u8>,
    pub partitions: Seq<i32>,
}

impl View for TopicEntry {
    type V = SpecTopicEntry;

    open spec fn view(&self) -> SpecTopicEntry {
        SpecTopicEntry { name: self.name@, topic_id: self.topic_id@, partitions: self.partitions@ }
    }
}

/// The interpretation of a sequence of topic entries.
pub open spec fn entries_view(v: Seq<TopicEntry>) -> Seq<SpecTopicEntry> {
    v.map_values(|e: TopicEntry| e@)
}

/// The topic index derived from the metadata log: a mapping from topic name
/// to (topic id, ordered partition indices), held as a vector of entries.
#[derive(Debug, PartialEq)]
pub struct TopicIndex {
    pub topics: Vec<TopicEntry>,
}

impl View for TopicIndex {
    type V = Seq<SpecTopicEntry>;

    open spec fn view(&self) -> Seq<SpecTopicEntry> {
        entries_view(self.topics@)
    }
}

/// Parse `n` length-prefixed records between `pos` and `end`; the records
/// must fill the range exactly.
pub open spec fn parse_records(s: Seq<u8>, pos: int, end: int, n: int) -> Option<Seq<SpecRecord>>
    decreases n,
{
    if n <= 0 {
        if pos == end {
            Some(Seq::<SpecRecord>::empty())
        } else {
            None
        }
    } else {
        if !uvarint_ok(s, pos, end, 0) {
            None
        } else {
            let rl = zigzag_decode(uvarint_val(s, pos, end, 0, 0));
            let body_start = pos + uvarint_len(s, pos, end, 0);
            if rl < 0 || body_start + rl > end {
                None
            } else {
                let rec = parse_record_content(s.subrange(body_start, body_start + rl));
                match parse_records(s, body_start + rl, end, n - 1) {
                    None => None,
                    Some(rest) => Some(seq![rec] + rest),
                }
            }
        }
    }
}

/// Parse the whole buffer from `pos` as a sequence of record batches.
pub open spec fn parse_batches(s: Seq<u8>, pos: int) -> Option<Seq<Seq<SpecRecord>>>
    decreases s.len() - pos,
{
    if pos == s.len() {
        Some(Seq::<Seq<SpecRecord>>::empty())
    } else if pos < 0 || pos + 12 > s.len() {
        None
    } else {
        let blen = be_u32(s, pos + 8);
        let body_start = pos + 12;
        let body_end = body_start + blen;
        if body_end > s.len() || blen < 49 {
            None
        } else {
            let n = be_u32(s, body_start + 45);
            match parse_records(s, body_start + 49, body_end, n) {
                None => None,
                Some(recs) => match parse_batches(s, body_end) {
                    None => None,
                    Some(rest) => Some(seq![recs] + rest),
                },
            }
        }
    }
}

/// The partition indices declared in `recs` from position `j` on whose
/// embedded topic id is `id`, in order.
pub open spec fn batch_partitions(recs: Seq<SpecRecord>, id: Seq<u8>, j: int) -> Seq<i32>
    decreases recs.len() - j,
{
    if j < 0 || j >= recs.len() {
        Seq::<i32>::empty()
    } else {
        let rest = batch_partitions(recs, id, j + 1);
        match recs[j] {
            SpecRecord::Partition { partition_id, topic_id } => {
                if topic_id == id {
                    seq![partition_id] + rest
                } else {
                    rest
                }
            },
            _ => rest,
        }
    }
}

/// Index of the first entry named `name` at or after `j`, or `-1`.
pub open spec fn find_name_from(ix: Seq<SpecTopicEntry>, name: Seq<u8>, j: int) -> int
    decreases ix.len() - j,
{
    if j < 0 || j >= ix.len() {
        -1
    } else if ix[j].name == name {
        j
    } else {
        find_name_from(ix, name, j + 1)
    }
}

/// Index of the first entry named `name`, or `-1`.
pub open spec fn find_name(ix: Seq<SpecTopicEntry>, name: Seq<u8>) -> int {
    find_name_from(ix, name, 0)
}

/// Index of the first entry whose topic id is `id` at or after `j`, or `-1`.
pub open spec fn find_id_from(ix: Seq<SpecTopicEntry>, id: Seq<u8>, j: int) -> int
    decreases ix.len() - j,
{
    if j < 0 || j >= ix.len() {
        -1
    } else if ix[j].topic_id == id {
        j
    } else {
        find_id_from(ix, id, j + 1)
    }
}

/// Index of the first entry whose topic id is `id`, or `-1`.
pub open spec fn find_id(ix: Seq<SpecTopicEntry>, id: Seq<u8>) -> int {
    find_id_from(ix, id, 0)
}

/// A found name index lies in range and names the entry it points at.
pub proof fn lemma_find_name_range(ix: Seq<SpecTopicEntry>, name: Seq<u8>, j: int)
    ensures
        find_name_from(ix, name, j) == -1 || (j <= find_name_from(ix, name, j) < ix.len()
            && ix[find_name_from(ix, name, j)].name == name),
    decreases ix.len() - j,
{
    if j < 0 || j >= ix.len() {
    } else if ix[j].name == name {
    } else {
        lemma_find_name_range(ix, name, j + 1);
    }
}

/// Fold one batch into the index: if its first record is a topic record,
/// the topic's entry is replaced by one holding the batch's matching
/// partition records; otherwise the batch contributes nothing.
pub open spec fn apply_batch(ix: Seq<SpecTopicEntry>, recs: Seq<SpecRecord>) -> Seq<
    SpecTopicEntry,
> {
    if recs.len() >= 2 {
        match recs[0] {
            SpecRecord::Topic { name, topic_id } => {
                let entry = SpecTopicEntry {
                    name,
                    topic_id,
                    partitions: batch_partitions(recs, topic_id, 1),
                };
                let k = find_name(ix, name);
                let base = if k >= 0 {
                    ix.remove(k)
                } else {
                    ix
                };
                base.push(entry)
            },
            _ => ix,
        }
    } else {
        ix
    }
}

/// Fold the batches from position `i` on into the accumulator `ix`.
pub open spec fn fold_index_from(
    batches: Seq<Seq<SpecRecord>>,
    i: int,
    ix: Seq<SpecTopicEntry>,
) -> Seq<SpecTopicEntry>
    decreases batches.len() - i,
{
    if i < 0 || i >= batches.len() {
        ix
    } else {
        fold_index_from(batches, i + 1, apply_batch(ix, batches[i]))
    }
}

/// The index derived from a sequence of batches.
pub open spec fn fold_index(batches: Seq<Seq<SpecRecord>>) -> Seq<SpecTopicEntry> {
    fold_index_from(batches, 0, Seq::<SpecTopicEntry>::empty())
}

/// The topic index a metadata log buffer denotes, if it parses.
pub open spec fn topic_index_of(s: Seq<u8>) -> Option<Seq<SpecTopicEntry>> {
    match parse_batches(s, 0) {
        None => None,
        Some(bs) => Some(fold_index(bs)),
    }
}

proof fn lemma_recs_view_push(rs: Seq<Record>, r: Record)
    ensures
        recs_view(rs.push(r)) == recs_view(rs).push(r@),
{
    assert(recs_view(rs.push(r)) =~= recs_view(rs).push(r@));
}

proof fn lemma_batches_view_push(bs: Seq<RecordBatch>, b: RecordBatch)
    ensures
        batches_view(bs.push(b)) == batches_view(bs).push(b@),
{
    assert(batches_view(bs.push(b)) =~= batches_view(bs).push(b@));
}

proof fn lemma_entries_view_push(v: Seq<TopicEntry>, e: TopicEntry)
    ensures
        entries_view(v.push(e)) == entries_view(v).push(e@),
{
    assert(entries_view(v.push(e)) =~= entries_view(v).push(e@));
}

proof fn lemma_entries_view_remove(v: Seq<TopicEntry>, k: int)
    requires
        0 <= k < v.len(),
    ensures
        entries_view(v.remove(k)) == entries_view(v).remove(k),
{
    assert(entries_view(v.remove(k)) =~= entries_view(v).remove(k));
}

fn parse_records_exec(data: &Vec<u8>, pos0: usize, end: usize, n: u32) -> (r: Result<
    Vec<Record>,
    DecodeError,
>)
    requires
        pos0 <= end,
        end <= data@.len(),
    ensures
        match r {
            Ok(recs) => parse_records(data@, pos0 as int, end as int, n as int) == Some(
                recs_view(recs@),
            ),
            Err(e) => parse_records(data@, pos0 as int, end as int, n as int) is None && e
                == DecodeError::CorruptLog,
        },
{
    let mut acc: Vec<Record> = Vec::new();
    let mut pos: usize = pos0;
    let mut rem: u32 = n;
    proof {
        assert(recs_view(acc@) =~= Seq::<SpecRecord>::empty());
    }
    while rem > 0
        invariant
            pos0 <= pos <= end,
            end <= data@.len(),
            match parse_records(data@, pos as int, end as int, rem as int) {
                Some(rest) => parse_records(data@, pos0 as int, end as int, n as int) == Some(
                    recs_view(acc@) + rest,
                ),
                None => parse_records(data@, pos0 as int, end as int, n as int) is None,
            },
        decreases rem,
    {
        let ghost pos_g = pos as int;
        let ghost acc_g = acc@;
        let rl_res = read_zigzag(data, pos, end);
        let (rl, body_start) = match rl_res {
            Err(_) => {
                return Err(DecodeError::CorruptLog);
            },
            Ok(x) => x,
        };
        if rl < 0 {
            return Err(DecodeError::CorruptLog);
        }
        let rlu = rl as usize;
        if rlu > end - body_start {
            return Err(DecodeError::CorruptLog);
        }
        let body = copy_range(data, body_start, body_start + rlu);
        let rec = parse_record_value(&body);
        proof {
            assert(body@ == data@.subrange(body_start as int, body_start as int + rl as int));
        }
        acc.push(rec);
        pos = body_start + rlu;
        rem = rem - 1;
        proof {
            lemma_recs_view_push(acc_g, rec);
            match parse_records(data@, pos as int, end as int, rem as int) {
                Some(rest) => {
                    assert(recs_view(acc_g) + (seq![rec@] + rest) =~= recs_view(acc@) + rest);
                },
                None => {},
            }
        }
    }
    if pos == end {
        proof {
            assert(recs_view(acc@) + Seq::<SpecRecord>::empty() =~= recs_view(acc@));
        }
        Ok(acc)
    } else {
        Err(DecodeError::CorruptLog)
    }
}

/// Parse a whole metadata log buffer as a sequence of record batches. Any
/// framing violation is a hard error for the whole stream.
pub fn parse_batches_exec(data: &Vec<u8>) -> (r: Result<Vec<RecordBatch>, DecodeError>)
    ensures
        match r {
            Ok(bs) => parse_batches(data@, 0) == Some(batches_view(bs@)),
            Err(e) => parse_batches(data@, 0) is None && e == DecodeError::CorruptLog,
        },
{
    let len = data.len();
    let mut acc: Vec<RecordBatch> = Vec::new();
    let mut pos: usize = 0;
    proof {
        assert(batches_view(acc@) =~= Seq::<Seq<SpecRecord>>::empty());
    }
    while pos < len
        invariant
            pos <= len,
            len == data@.len(),
            match parse_batches(data@, pos as int) {
                Some(rest) => parse_batches(data@, 0) == Some(batches_view(acc@) + rest),
                None => parse_batches(data@, 0) is None,
            },
        decreases len - pos,
    {
        let ghost acc_g = acc@;
        if len - pos < 12 {
            return Err(DecodeError::CorruptLog);
        }
        let blen = read_u32_be(data, pos + 8);
        let body_start = pos + 12;
        let blen_us = blen as usize;
        if blen_us > len - body_start || blen < 49 {
            return Err(DecodeError::CorruptLog);
        }
        let body_end = body_start + blen_us;
        let n = read_u32_be(data, body_start + 45);
        let recs = match parse_records_exec(data, body_start + 49, body_end, n) {
            Err(_) => {
                return Err(DecodeError::CorruptLog);
            },
            Ok(rs) => rs,
        };
        let batch = RecordBatch { records: recs };
        acc.push(batch);
        pos = body_end;
        proof {
            lemma_batches_view_push(acc_g, acc@[acc@.len() - 1]);
            match parse_batches(data@, pos as int) {
                Some(rest) => {
                    let bv = acc@[acc@.len() - 1]@;
                    assert(batches_view(acc_g) + (seq![bv] + rest) =~= batches_view(acc@) + rest);
                },
                None => {},
            }
        }
    }
    proof {
        assert(batches_view(acc@) + Seq::<Seq<SpecRecord>>::empty() =~= batches_view(acc@));
    }
    Ok(acc)
}

fn collect_partitions(batch: &RecordBatch, id: &Vec<u8>) -> (r: Vec<i32>)
    ensures
        r@ == batch_partitions(batch@, id@, 1),
{
    let mut acc: Vec<i32> = Vec::new();
    let mut j: usize = 1;
    let n = batch.records.len();
    proof {
        assert(batch@.len() == batch.records@.len());
    }
    while j < n
        invariant
            1 <= j,
            n == batch.records@.len(),
            batch@.len() == n,
            acc@ + batch_partitions(batch@, id@, j as int) == batch_partitions(batch@, id@, 1),
        decreases n - j,
    {
        let ghost acc_g = acc@;
        proof {
            assert(batch@[j as int] == batch.records@[j as int]@);
        }
        match &batch.records[j] {
            Record::Partition { partition_id, topic_id } => {
                if bytes_eq(topic_id, id) {
                    acc.push(*partition_id);
                    proof {
                        let rest = batch_partitions(batch@, id@, j as int + 1);
                        assert(acc_g + (seq![*partition_id] + rest) =~= acc@ + rest);
                    }
                }
            },
            _ => {},
        }
        j = j + 1;
    }
    proof {
        assert(acc@ + Seq::<i32>::empty() =~= acc@);
    }
    acc
}

/// Find the index entry for a topic name, if any.
pub fn find_entry(topics: &Vec<TopicEntry>, name: &Vec<u8>) -> (r: Option<usize>)
    ensures
        match r {
            Some(k) => 0 <= k < topics@.len() && find_name(entries_view(topics@), name@) == k,
            None => find_name(entries_view(topics@), name@) == -1,
        },
{
    let mut j: usize = 0;
    let n = topics.len();
    while j < n
        invariant
            j <= n,
            n == topics@.len(),
            find_name_from(entries_view(topics@), name@, 0) == find_name_from(
                entries_view(topics@),
                name@,
                j as int,
            ),
        decreases n - j,
    {
        proof {
            assert(entries_view(topics@)[j as int] == topics@[j as int]@);
        }
        if bytes_eq(&topics[j].name, name) {
            return Some(j);
        }
        j = j + 1;
    }
    None
}

/// Find the index entry for a topic id, if any.
pub fn find_entry_by_id(topics: &Vec<TopicEntry>, id: &Vec<u8>) -> (r: Option<usize>)
    ensures
        match r {
            Some(k) => 0 <= k < topics@.len() && find_id(entries_view(topics@), id@) == k,
            None => find_id(entries_view(topics@), id@) == -1,
        },
{
    let mut j: usize = 0;
    let n = topics.len();
    while j < n
        invariant
            j <= n,
            n == topics@.len(),
            find_id_from(entries_view(topics@), id@, 0) == find_id_from(
                entries_view(topics@),
                id@,
                j as int,
            ),
        decreases n - j,
    {
        proof {
            assert(entries_view(topics@)[j as int] == topics@[j as int]@);
        }
        if bytes_eq(&topics[j].topic_id, id) {
            return Some(j);
        }
        j = j + 1;
    }
    None
}

fn apply_batch_exec(ix: &mut TopicIndex, batch: &RecordBatch)
    ensures
        final(ix)@ == apply_batch(old(ix)@, batch@),
{
    if batch.records.len() >= 2 {
        proof {
            assert(batch@.len() == batch.records@.len());
            assert(batch@[0] == batch.records@[0]@);
        }
        match &batch.records[0] {
            Record::Topic { name, topic_id } => {
                let name_c = copy_bytes(name);
                let id_c = copy_bytes(topic_id);
                let parts = collect_partitions(batch, &id_c);
                let ghost pre = ix.topics@;
                match find_entry(&ix.topics, &name_c) {
                    Some(k) => {
                        ix.topics.remove(k);
                        proof {
                            lemma_entries_view_remove(pre, k as int);
                        }
                    },
                    None => {},
                }
                let ghost base = ix.topics@;
                let entry = TopicEntry { name: name_c, topic_id: id_c, partitions: parts };
                ix.topics.push(entry);
                proof {
                    lemma_entries_view_push(base, ix.topics@[ix.topics@.len() - 1]);
                }
            },
            _ => {},
        }
    }
}

/// Fold parsed batches into a topic index.
pub fn build_topic_index(batches: &Vec<RecordBatch>) -> (r: TopicIndex)
    ensures
        r@ == fold_index(batches_view(batches@)),
{
    let ghost bsv = batches_view(batches@);
    let mut ix = TopicIndex { topics: Vec::new() };
    let mut i: usize = 0;
    let n = batches.len();
    proof {
        assert(entries_view(ix.topics@) =~= Seq::<SpecTopicEntry>::empty());
        assert(bsv.len() == batches@.len());
    }
    while i < n
        invariant
            i <= n,
            n == batches@.len(),
            bsv == batches_view(batches@),
            bsv.len() == n,
            fold_index_from(bsv, i as int, ix@) == fold_index(bsv),
        decreases n - i,
    {
        proof {
            assert(bsv[i as int] == batches@[i as int]@);
        }
        apply_batch_exec(&mut ix, &batches[i]);
        i = i + 1;
    }
    ix
}

/// A topic name appears at most once in the index.
pub open spec fn names_unique(ix: Seq<SpecTopicEntry>) -> bool {
    forall|a: int, b: int| 0 <= a < b < ix.len() ==> (#[trigger] ix[a]).name != (#[trigger] ix[b]).name
}

proof fn lemma_find_name_none_means_absent(ix: Seq<SpecTopicEntry>, name: Seq<u8>, j: int)
    requires
        j >= 0,
        find_name_from(ix, name, j) == -1,
    ensures
        forall|m: int| j <= m < ix.len() ==> (#[trigger] ix[m]).name != name,
    decreases ix.len() - j,
{
    if j < 0 || j >= ix.len() {
    } else {
        lemma_find_name_none_means_absent(ix, name, j + 1);
    }
}

proof fn lemma_remove_keeps_unique(ix: Seq<SpecTopicEntry>, name: Seq<u8>, k: int)
    requires
        names_unique(ix),
        0 <= k < ix.len(),
        find_name(ix, name) == k,
    ensures
        names_unique(ix.remove(k)),
        forall|m: int| 0 <= m < ix.remove(k).len() ==> (#[trigger] ix.remove(k)[m]).name != name,
{
    lemma_find_name_range(ix, name, 0);
    assert forall|m: int| 0 <= m < ix.remove(k).len() implies (#[trigger] ix.remove(k)[m]).name
        != name by {
        if m < k {
            assert(ix.remove(k)[m] == ix[m]);
        } else {
            assert(ix.remove(k)[m] == ix[m + 1]);
        }
    }
}

proof fn lemma_apply_batch_keeps_unique(ix: Seq<SpecTopicEntry>, recs: Seq<SpecRecord>)
    requires
        names_unique(ix),
    ensures
        names_unique(apply_batch(ix, recs)),
{
    if recs.len() >= 2 {
        match recs[0] {
            SpecRecord::Topic { name, topic_id } => {
                let k = find_name(ix, name);
                lemma_find_name_range(ix, name, 0);
                if k >= 0 {
                    lemma_remove_keeps_unique(ix, name, k);
                } else {
                    lemma_find_name_none_means_absent(ix, name, 0);
                }
                let base = if k >= 0 {
                    ix.remove(k)
                } else {
                    ix
                };
                let out = apply_batch(ix, recs);
                assert forall|a: int, b: int| 0 <= a < b < out.len() implies (
                #[trigger] out[a]).name != (#[trigger] out[b]).name by {
                    if b < out.len() - 1 {
                        assert(out[a] == base[a] && out[b] == base[b]);
                    } else {
                        assert(out[a] == base[a] && out[b].name == name);
                    }
                }
            },
            _ => {},
        }
    }
}

proof fn lemma_fold_keeps_unique(batches: Seq<Seq<SpecRecord>>, i: int, ix: Seq<SpecTopicEntry>)
    requires
        names_unique(ix),
    ensures
        names_unique(fold_index_from(batches, i, ix)),
    decreases batches.len() - i,
{
    if i < 0 || i >= batches.len() {
    } else {
        lemma_apply_batch_keeps_unique(ix, batches[i]);
        lemma_fold_keeps_unique(batches, i + 1, apply_batch(ix, batches[i]));
    }
}

/// The index invariant: a topic name is a unique key of the index that the
/// metadata log reader derives.
pub proof fn lemma_topic_index_names_unique(s: Seq<u8>, ix: Seq<SpecTopicEntry>)
    requires
        topic_index_of(s) == Some(ix),
    ensures
        names_unique(ix),
{
    match parse_batches(s, 0) {
        None => {},
        Some(bs) => {
            lemma_fold_keeps_unique(bs, 0, Seq::<SpecTopicEntry>::empty());
        },
    }
}

/// Idempotence: the index is a pure function of the log bytes, so reading
/// an unchanged buffer twice yields equal indexes.
pub proof fn lemma_read_topic_index_idempotent(
    d1: Seq<u8>,
    d2: Seq<u8>,
    ix1: Seq<SpecTopicEntry>,
    ix2: Seq<SpecTopicEntry>,
)
    requires
        d1 == d2,
        topic_index_of(d1) == Some(ix1),
        topic_index_of(d2) == Some(ix2),
    ensures
        ix1 == ix2,
{
}

/// Read the topic index out of a metadata log buffer. The result is a pure
/// function of the bytes: reading the same buffer twice yields equal
/// indexes. A buffer that is not a valid batch sequence is a corrupt log.
pub fn read_topic_index(data: &Vec<u8>) -> (r: Result<TopicIndex, DecodeError>)
    ensures
        match r {
            Ok(ix) => topic_index_of(data@) == Some(ix@),
            Err(e) => topic_index_of(data@) is None && e == DecodeError::CorruptLog,
        },
{
    match parse_batches_exec(data) {
        Ok(bs) => Ok(build_topic_index(&bs)),
        Err(e) => Err(e),
    }
}

} // verus!
