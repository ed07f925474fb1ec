//! The typed model of the records found in the cluster-metadata log: topic
//! records, partition records, and an ignored variant for anything else,
//! together with the parser from a record's body bytes to that model.
//!
//! A record body (the bytes after the record's length field) holds an
//! attribute byte, two varint deltas, a zigzag-length key, and a
//! zigzag-length value. The value payload starts with a frame-version byte,
//! a type byte and a version byte; type 2 is a topic record (compact-string
//! name, then a 16-byte topic id) and type 3 a partition record (big-endian
//! partition index, then a 16-byte topic id). Records of any other shape
//! are interpreted as `Other` and ignored, never an error.
use vstd::prelude::*;

use crate::wire::{be_i32, copy_range, read_i32_be};
use crate::{read_uvarint, read_zigzag, uvarint_len, uvarint_ok, uvarint_val, zigzag_decode};

verus! {

/// One record from the metadata log, interpreted.
#[derive(Debug, PartialEq)]
pub enum Record {
    Topic { name: Vec<u8>, topic_id: Vec<u8> },
    Partition { partition_id: i32, topic_id: Vec<u8> },
    Other,
}

/// The mathematical shadow of `Record`.
pub enum SpecRecord {
    Topic { name: Seq<u8>, topic_id: Seq<u8> },
    Partition { partition_id: i32, topic_id: Seq<u8> },
    Other,
}

impl View for Record {
    type V = SpecRecord;

    open spec fn view(&self) -> SpecRecord {
        match self {
            Record::Topic { name, topic_id } => SpecRecord::Topic {
                name: name@,
                topic_id: topic_id@,
            },
            Record::Partition { partition_id, topic_id } => SpecRecord::Partition {
                partition_id: *partition_id,
                topic_id: topic_id@,
            },
            Record::Other => SpecRecord::Other,
        }
    }
}

/// Interpretation of a record's value payload.
pub open spec fn parse_meta_value(w: Seq<u8>) -> SpecRecord {
    let end = w.len() as int;
    if end < 3 {
        SpecRecord::Other
    } else if w[1] == 2 {
        if !uvarint_ok(w, 3, end, 0) {
            SpecRecord::Other
        } else {
            let c = uvarint_val(w, 3, end, 0, 0);
            let p = 3 + uvarint_len(w, 3, end, 0);
            if c == 0 {
                SpecRecord::Other
            } else {
                let nlen = c - 1;
                if p + nlen + 16 > end {
                    SpecRecord::Other
                } else {
                    SpecRecord::Topic {
                        name: w.subrange(p, p + nlen),
                        topic_id: w.subrange(p + nlen, p + nlen + 16),
                    }
                }
            }
        }
    } else if w[1] == 3 {
        if end < 23 {
            SpecRecord::Other
        } else {
            SpecRecord::Partition {
                partition_id: be_i32(w, 3) as i32,
                topic_id: w.subrange(7, 23),
            }
        }
    } else {
        SpecRecord::Other
    }
}

/// Interpretation of a whole record body; any shape violation yields `Other`.
pub open spec fn parse_record_content(v: Seq<u8>) -> SpecRecord {
    let end = v.len() as int;
    if end < 1 {
        SpecRecord::Other
    } else if !uvarint_ok(v, 1, end, 0) {
        SpecRecord::Other
    } else {
        let p2 = 1 + uvarint_len(v, 1, end, 0);
        if !uvarint_ok(v, p2, end, 0) {
            SpecRecord::Other
        } else {
            let p3 = p2 + uvarint_len(v, p2, end, 0);
            if !uvarint_ok(v, p3, end, 0) {
                SpecRecord::Other
            } else {
                let klen = zigzag_decode(uvarint_val(v, p3, end, 0, 0));
                let p4 = p3 + uvarint_len(v, p3, end, 0);
                let p5 = if klen >= 0 {
                    p4 + klen
                } else {
                    p4
                };
                if p5 > end {
                    SpecRecord::Other
                } else if !uvarint_ok(v, p5, end, 0) {
                    SpecRecord::Other
                } else {
                    let vlen = zigzag_decode(uvarint_val(v, p5, end, 0, 0));
                    let p6 = p5 + uvarint_len(v, p5, end, 0);
                    if vlen < 0 || p6 + vlen > end {
                        SpecRecord::Other
                    } else {
                        parse_meta_value(v.subrange(p6, p6 + vlen))
                    }
                }
            }
        }
    }
}

fn parse_meta_value_exec(w: &Vec<u8>) -> (r: Record)
    ensures
        r@ == parse_meta_value(w@),
{
    let end = w.len();
    if end < 3 {
        Record::Other
    } else if w[1] == 2 {
        match read_uvarint(w, 3, end) {
            Err(_) => Record::Other,
            Ok((c, p)) => {
                if c == 0 {
                    Record::Other
                } else {
                    let nlen = (c - 1) as usize;
                    if nlen > end - p || 16 > end - p - nlen {
                        Record::Other
                    } else {
                        let name = copy_range(w, p, p + nlen);
                        let topic_id = copy_range(w, p + nlen, p + nlen + 16);
                        Record::Topic { name, topic_id }
                    }
                }
            },
        }
    } else if w[1] == 3 {
        if end < 23 {
            Record::Other
        } else {
            let partition_id = read_i32_be(w, 3);
            let topic_id = copy_range(w, 7, 23);
            Record::Partition { partition_id, topic_id }
        }
    } else {
        Record::Other
    }
}

/// Interpret one record body as a metadata record. Total: a body that does
/// not have the expected shape is `Other`, not an error.
pub fn parse_record_value(v: &Vec<u8>) -> (r: Record)
    ensures
        r@ == parse_record_content(v@),
{
    let end = v.len();
    if end < 1 {
        return Record::Other;
    }
    let r1 = read_uvarint(v, 1, end);
    let p2 = match r1 {
        Err(_) => {
            return Record::Other;
        },
        Ok((_, p)) => p,
    };
    let r2 = read_uvarint(v, p2, end);
    let p3 = match r2 {
        Err(_) => {
            return Record::Other;
        },
        Ok((_, p)) => p,
    };
    let r3 = read_zigzag(v, p3, end);
    let (klen, p4) = match r3 {
        Err(_) => {
            return Record::Other;
        },
        Ok(kp) => kp,
    };
    let p5 = if klen >= 0 {
        let ku = klen as usize;
        if ku > end - p4 {
            return Record::Other;
        }
        p4 + ku
    } else {
        p4
    };
    let r4 = read_zigzag(v, p5, end);
    let (vlen, p6) = match r4 {
        Err(_) => {
            return Record::Other;
        },
        Ok(vp) => vp,
    };
    if vlen < 0 {
        return Record::Other;
    }
    let vu = vlen as usize;
    if vu > end - p6 {
        return Record::Other;
    }
    let value = copy_range(v, p6, p6 + vu);
    let r = parse_meta_value_exec(&value);
    proof {
        assert(value@ == v@.subrange(p6 as int, p6 as int + vlen as int));
    }
    r
}

} // verus!
