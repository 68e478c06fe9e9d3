//! Log lines kept in memory, bounded per invocation.

use vstd::prelude::*;

use crate::domain::log::LogRecord;
use crate::domain::Limits;
use crate::repository::{AppendOutcome, LogQuery};
use crate::table;
use crate::table::{Key, Table};
use crate::text;

verus! {

/// The lines of one invocation, or of one environment outside of any.
pub struct LogBucket {
    pub records: Vec<LogRecord>,
    /// Bytes of the lines.
    pub bytes: u64,
    /// At least one line did not fit.
    pub dropped: bool,
}

/// Content of a bucket.
pub ghost struct Bucket {
    pub records: Seq<LogRecord>,
    pub bytes: nat,
    pub dropped: bool,
}

impl View for LogBucket {
    type V = Bucket;

    open spec fn view(&self) -> Bucket {
        Bucket { records: self.records@, bytes: self.bytes as nat, dropped: self.dropped }
    }
}

/// A bucket that has no line yet.
pub open spec fn empty_bucket() -> Bucket {
    Bucket { records: Seq::empty(), bytes: 0, dropped: false }
}

/// The bucket a line goes into: its invocation's, or its environment's.
pub open spec fn bucket_name(invocation: Option<Seq<char>>, environment: Seq<char>) -> Seq<char> {
    match invocation {
        Some(inv) => "inv:"@ + inv,
        None => "env:"@ + environment,
    }
}

fn log_key(record: &LogRecord) -> (r: Key)
    ensures
        r@ == table::k1(bucket_name(record@.invocation_id, record@.environment_id)),
{
    let name = match &record.invocation_id {
        Some(inv) => {
            let mut m = text::owned("inv:");
            m.append(inv.as_str());
            m
        },
        None => {
            let mut m = text::owned("env:");
            m.append(record.environment_id.as_str());
            m
        },
    };
    Key::one(name.as_str())
}

/// Bytes of a line.
pub open spec fn line_bytes(record: LogRecord) -> nat {
    vstd::utf8::encode_utf8(record.line@).len()
}

/// A line fits into its bucket.
pub open spec fn fits(b: Bucket, limits: Limits, record: LogRecord) -> bool {
    b.records.len() < limits.max_log_lines_per_invocation && b.bytes + line_bytes(record)
        <= limits.max_log_bytes_per_invocation
}

/// The bucket after a line came in: the line is kept where it fits, and
/// otherwise the bucket remembers that one did not.
pub open spec fn after(b: Bucket, limits: Limits, record: LogRecord) -> Bucket {
    if fits(b, limits, record) {
        Bucket {
            records: b.records.push(record),
            bytes: b.bytes + line_bytes(record),
            dropped: b.dropped,
        }
    } else {
        Bucket { dropped: true, ..b }
    }
}

/// The lines in memory.
pub struct LogBuffer {
    pub buckets: Table<LogBucket>,
}

impl LogBuffer {
    /// The bucket of a name.
    pub open spec fn bucket(&self, name: Seq<char>) -> Bucket {
        if self.buckets@.contains_key(table::k1(name)) {
            self.buckets@[table::k1(name)]@
        } else {
            empty_bucket()
        }
    }

    /// The buckets are a table.
    pub open spec fn wf(&self) -> bool {
        self.buckets.wf()
    }

    /// No lines.
    pub fn new() -> (r: LogBuffer)
        ensures
            r.wf(),
            forall|name: Seq<char>| #[trigger] r.bucket(name) == empty_bucket(),
    {
        LogBuffer { buckets: Table::new() }
    }

    /// Keep a line in its bucket, unless the bucket is full.
    pub fn append(&mut self, limits: &Limits, record: LogRecord) -> (r: AppendOutcome)
        requires
            old(self).wf(),
        ensures
            final(self).wf(),
            ({
                let name = bucket_name(record@.invocation_id, record@.environment_id);
                &&& r == if fits(old(self).bucket(name), *limits, record) {
                    AppendOutcome::Stored
                } else {
                    AppendOutcome::Dropped
                }
                &&& final(self).bucket(name) == after(old(self).bucket(name), *limits, record)
                &&& forall|other: Seq<char>|
                    other != name ==> #[trigger] final(self).bucket(other) == old(self).bucket(
                        other,
                    )
            }),
    {
        let key = log_key(&record);
        let ghost name = bucket_name(record@.invocation_id, record@.environment_id);
        proof {
            assert forall|other: Seq<char>| other != name implies table::k1(other)
                != #[trigger] table::k1(name) by {
                table::lemma_k1(other, name);
            }
        }
        let mut bucket = match self.buckets.remove(&key) {
            Some(b) => b,
            None => LogBucket { records: Vec::new(), bytes: 0, dropped: false },
        };
        let ghost before = bucket@;
        assert(before == old(self).bucket(name));
        let size: u64 = text::byte_len(record.line.as_str()) as u64;
        let room = (bucket.records.len() as u64) < (limits.max_log_lines_per_invocation as u64)
            && bucket.bytes as u128 + size as u128 <= limits.max_log_bytes_per_invocation as u128;
        let outcome = if room {
            bucket.bytes = bucket.bytes + size;
            bucket.records.push(record);
            AppendOutcome::Stored
        } else {
            bucket.dropped = true;
            AppendOutcome::Dropped
        };
        self.buckets.set(key, bucket);
        proof {
            assert forall|other: Seq<char>| other != name implies #[trigger] self.bucket(other)
                == old(self).bucket(other) by {
                table::lemma_k1(other, name);
            }
        }
        outcome
    }

    /// The lines of an invocation, and whether any was dropped.
    pub fn query(&self, invocation: &str) -> (r: LogQuery)
        requires
            self.wf(),
        ensures
            r.records@ == self.bucket("inv:"@ + invocation@).records,
            r.dropped == self.bucket("inv:"@ + invocation@).dropped,
    {
        let mut name = text::owned("inv:");
        name.append(invocation);
        match self.buckets.get(&Key::one(name.as_str())) {
            Some(b) => LogQuery { records: copy_records(&b.records), dropped: b.dropped },
            None => LogQuery { records: Vec::new(), dropped: false },
        }
    }
}

fn copy_records(records: &Vec<LogRecord>) -> (r: Vec<LogRecord>)
    ensures
        r@ == records@,
{
    let mut out: Vec<LogRecord> = Vec::new();
    let mut i: usize = 0;
    while i < records.len()
        invariant
            i <= records@.len(),
            out@ == records@.take(i as int),
        decreases records@.len() - i,
    {
        out.push(records[i].clone());
        proof {
            assert(records@.take(i as int + 1) =~= records@.take(i as int).push(
                records@[i as int],
            ));
        }
        i += 1;
    }
    proof {
        assert(records@.take(i as int) =~= records@);
    }
    out
}

/// Bytes of the lines of a bucket.
pub open spec fn total_bytes(records: Seq<LogRecord>) -> nat
    decreases records.len(),
{
    if records.len() == 0 {
        0
    } else {
        total_bytes(records.drop_last()) + line_bytes(records.last())
    }
}

/// A bucket counts what it holds and holds no more than the limits allow.
pub open spec fn within(b: Bucket, limits: Limits) -> bool {
    &&& b.bytes == total_bytes(b.records)
    &&& b.records.len() <= limits.max_log_lines_per_invocation
    &&& b.bytes <= limits.max_log_bytes_per_invocation
}

/// The lines of an invocation stay within the limits, whatever comes in.
pub proof fn law_lines_stay_within_the_limits(b: Bucket, limits: Limits, record: LogRecord)
    requires
        within(b, limits),
    ensures
        within(after(b, limits, record), limits),
        within(empty_bucket(), limits),
{
    if fits(b, limits, record) {
        assert(b.records.push(record).drop_last() =~= b.records);
    }
}

/// What is kept is never reordered or dropped again.
pub proof fn law_kept_lines_stay(b: Bucket, limits: Limits, record: LogRecord)
    ensures
        b.records.is_prefix_of(after(b, limits, record).records),
        b.dropped ==> after(b, limits, record).dropped,
{
}

} // verus!
