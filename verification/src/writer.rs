//! The time-series storage writer: one pair of columns and one row count for
//! each port, filled in the order in which observations arrive.

use crate::column::{
    count_create_ops, lemma_appended_wf, ColumnState, CountWriter, U64ColWriter,
};
use crate::ops::{create_op, write_op, FileOp, FileRole, StorageError, VALUE_WIDTH};
use std::collections::HashMap;
use vstd::prelude::*;

verus! {

broadcast use vstd::std_specs::hash::group_hash_axioms;

/// One observation: `val` bytes of payload arrived at `port` at the time
/// `ts`, in nanoseconds since the Unix epoch.
#[derive(Clone, Copy, Debug, PartialEq, Eq)]
pub struct Record {
    pub port: u16,
    pub ts: u64,
    pub val: u64,
}

/// Number of memory pages in one growth increment of a column file.
pub const PAGES_PER_INCREMENT: u64 = 4;

/// The page size of the machine, from `page_size::get`. Nothing is claimed
/// of the number.
#[verifier::external_body]
fn page_size() -> usize {
    page_size::get()
}

/// The growth increment for a page size: four pages, where that many bytes
/// can be counted in 64 bits.
pub open spec fn increment_of(page_size: usize) -> Option<u64> {
    if PAGES_PER_INCREMENT * page_size <= u64::MAX {
        Some((PAGES_PER_INCREMENT * page_size) as u64)
    } else {
        None
    }
}

/// The growth increment of column files on a machine with pages of
/// `page_size` bytes.
pub fn increment_for(page_size: usize) -> (r: Option<u64>)
    ensures
        r == increment_of(page_size),
{
    (page_size as u64).checked_mul(PAGES_PER_INCREMENT)
}

/// The growth increment of column files on this machine: four pages.
pub fn increment() -> (r: Option<u64>)
    ensures
        exists|page: usize| r == #[trigger] increment_of(page),
        r matches Some(v) ==> v % PAGES_PER_INCREMENT == 0,
{
    let page = page_size();
    let r = increment_for(page);
    assert(r == increment_of(page));
    r
}

/// The state of the series of one port.
pub struct SeriesState {
    pub port: u16,
    pub ts: ColumnState,
    pub val: ColumnState,
    pub count: u64,
}

impl SeriesState {
    /// Both columns are well-formed, belong to the port, hold as many rows as
    /// the count says, and have files of one length.
    pub open spec fn wf(self) -> bool {
        &&& self.ts.wf()
        &&& self.val.wf()
        &&& self.ts.port == self.port
        &&& self.val.port == self.port
        &&& self.ts.role == FileRole::Timestamps
        &&& self.val.role == FileRole::Values
        &&& self.ts.len == self.val.len
        &&& self.ts.cap == self.val.cap
        &&& self.ts.increment == self.val.increment
        &&& self.count * VALUE_WIDTH == self.ts.len
    }

    /// The state of a series whose files were just created.
    pub open spec fn fresh(port: u16, increment: u64) -> SeriesState {
        SeriesState {
            port,
            ts: ColumnState::fresh(port, FileRole::Timestamps, increment),
            val: ColumnState::fresh(port, FileRole::Values, increment),
            count: 0,
        }
    }

    /// The operations that create the three files of a series: the timestamp
    /// column, the value column, then the count, which is set to zero.
    pub open spec fn create_ops(port: u16, increment: u64) -> Seq<FileOp> {
        seq![
            create_op(port, FileRole::Timestamps, increment),
            create_op(port, FileRole::Values, increment),
        ] + count_create_ops(port)
    }

    /// One more row can be written.
    pub open spec fn can_append(self) -> bool {
        self.ts.can_append()
    }

    /// The state after one more row.
    pub open spec fn appended(self) -> SeriesState {
        SeriesState {
            port: self.port,
            ts: self.ts.appended(),
            val: self.val.appended(),
            count: (self.count + 1) as u64,
        }
    }

    /// The write that makes a new row count.
    pub open spec fn count_op(self) -> FileOp {
        write_op(self.port, FileRole::Count, 0, (self.count + 1) as u64)
    }

    /// The operations that append the row `(ts, val)`: the timestamp is
    /// written first, then the value, and the count is raised last.
    pub open spec fn append_ops(self, ts: u64, val: u64) -> Seq<FileOp> {
        self.ts.append_ops(ts) + self.val.append_ops(val) + seq![self.count_op()]
    }
}

/// Appending a row keeps a series well-formed.
pub proof fn lemma_series_appended_wf(s: SeriesState)
    requires
        s.wf(),
        s.can_append(),
    ensures
        s.appended().wf(),
        s.count < u64::MAX,
{
    lemma_appended_wf(s.ts);
    lemma_appended_wf(s.val);
}

/// A new series is well-formed and has room for its first row.
pub proof fn lemma_series_fresh_wf(port: u16, increment: u64)
    requires
        increment >= VALUE_WIDTH,
    ensures
        SeriesState::fresh(port, increment).wf(),
        SeriesState::fresh(port, increment).can_append(),
{
    assert(increment % increment == 0) by (nonlinear_arith)
        requires
            increment > 0,
    ;
}

/// Writes the rows of one port: a timestamp column, a value column and the
/// row count.
#[derive(Clone, Copy, Debug)]
pub struct DatapointWriter {
    ts_writer: U64ColWriter,
    val_writer: U64ColWriter,
    count_writer: CountWriter,
}

impl View for DatapointWriter {
    type V = SeriesState;

    closed spec fn view(&self) -> SeriesState {
        SeriesState {
            port: self.count_writer.port(),
            ts: self.ts_writer@,
            val: self.val_writer@,
            count: self.count_writer.count(),
        }
    }
}

impl DatapointWriter {
    /// A writer for the series of `port`, and the operations that create its
    /// three files.
    pub fn new(port: u16, increment: u64) -> (r: Result<
        (DatapointWriter, Vec<FileOp>),
        StorageError,
    >)
        ensures
            match r {
                Ok((w, ops)) => {
                    &&& increment >= VALUE_WIDTH
                    &&& w@ == SeriesState::fresh(port, increment)
                    &&& w@.wf()
                    &&& ops@ == SeriesState::create_ops(port, increment)
                },
                Err(e) => increment < VALUE_WIDTH && e == StorageError::InvalidIncrement,
            },
    {
        let (ts_writer, ts_op) = match U64ColWriter::new(port, FileRole::Timestamps, increment) {
            Ok(made) => made,
            Err(e) => return Err(e),
        };
        let (val_writer, val_op) = match U64ColWriter::new(port, FileRole::Values, increment) {
            Ok(made) => made,
            Err(e) => return Err(e),
        };
        let (count_writer, mut count_ops) = CountWriter::new(port);
        let mut ops: Vec<FileOp> = Vec::new();
        ops.push(ts_op);
        ops.push(val_op);
        ops.append(&mut count_ops);
        Ok((DatapointWriter { ts_writer, val_writer, count_writer }, ops))
    }

    /// Appends the row `(ts, val)`: returns the operations that store it.
    pub fn append(&mut self, ts: u64, val: u64) -> (r: Result<Vec<FileOp>, StorageError>)
        requires
            old(self)@.wf(),
        ensures
            match r {
                Ok(ops) => {
                    &&& old(self)@.can_append()
                    &&& ops@ == old(self)@.append_ops(ts, val)
                    &&& final(self)@ == old(self)@.appended()
                    &&& final(self)@.wf()
                },
                Err(e) => {
                    &&& !old(self)@.can_append()
                    &&& e == StorageError::CapacityOverflow
                    &&& *final(self) == *old(self)
                },
            },
    {
        proof {
            if old(self)@.can_append() {
                lemma_series_appended_wf(old(self)@);
            }
        }
        let mut ops = match self.ts_writer.append(ts) {
            Ok(ops) => ops,
            Err(e) => return Err(e),
        };
        let mut val_ops = match self.val_writer.append(val) {
            Ok(ops) => ops,
            Err(e) => return Err(e),
        };
        ops.append(&mut val_ops);
        ops.push(self.count_writer.increment());
        Ok(ops)
    }
}

/// The state of the writer: the growth increment and the series begun so far.
pub struct WriterState {
    pub increment: u64,
    pub series: Map<u16, SeriesState>,
}

impl WriterState {
    /// Every series is well-formed, is filed under its own port and grows by
    /// the writer's increment.
    pub open spec fn wf(self) -> bool {
        &&& self.increment >= VALUE_WIDTH
        &&& forall|port: u16| #[trigger]
            self.series.contains_key(port) ==> {
                &&& self.series[port].wf()
                &&& self.series[port].port == port
                &&& self.series[port].ts.increment == self.increment
            }
    }

    /// The state of a writer that has seen no observation.
    pub open spec fn fresh(increment: u64) -> WriterState {
        WriterState { increment, series: Map::empty() }
    }

    /// The series that the next row of `port` goes to: the one begun for the
    /// port, or a new one.
    pub open spec fn series_for(self, port: u16) -> SeriesState {
        if self.series.contains_key(port) {
            self.series[port]
        } else {
            SeriesState::fresh(port, self.increment)
        }
    }

    /// One more row can be written for `port`.
    pub open spec fn can_append(self, port: u16) -> bool {
        self.series_for(port).can_append()
    }

    /// The state after one more row for `port`.
    pub open spec fn appended(self, port: u16) -> WriterState {
        WriterState {
            increment: self.increment,
            series: self.series.insert(port, self.series_for(port).appended()),
        }
    }

    /// The operations that store the row `(ts, val)` for `port`: for the
    /// first row of a port, the creation of its files comes first.
    pub open spec fn append_ops(self, port: u16, ts: u64, val: u64) -> Seq<FileOp> {
        if self.series.contains_key(port) {
            self.series[port].append_ops(ts, val)
        } else {
            SeriesState::create_ops(port, self.increment) + SeriesState::fresh(
                port,
                self.increment,
            ).append_ops(ts, val)
        }
    }

    /// The state after `records` have been stored, one after the other.
    pub open spec fn ran(self, records: Seq<Record>) -> WriterState
        decreases records.len(),
    {
        if records.len() == 0 {
            self
        } else {
            self.ran(records.drop_last()).appended(records.last().port)
        }
    }

    /// The operations that store `records`, one after the other.
    pub open spec fn run_ops(self, records: Seq<Record>) -> Seq<FileOp>
        decreases records.len(),
    {
        if records.len() == 0 {
            Seq::empty()
        } else {
            let r = records.last();
            self.run_ops(records.drop_last()) + self.ran(records.drop_last()).append_ops(
                r.port,
                r.ts,
                r.val,
            )
        }
    }

    /// How many of `records`, from the first on, can be stored before one
    /// finds its column files unable to grow.
    pub open spec fn consumed(self, records: Seq<Record>) -> nat
        decreases records.len(),
    {
        if records.len() == 0 {
            0
        } else {
            let n = self.consumed(records.drop_last());
            if n == records.len() - 1 && self.ran(records.drop_last()).can_append(
                records.last().port,
            ) {
                records.len()
            } else {
                n
            }
        }
    }
}

/// Appending a row keeps the writer well-formed.
pub proof fn lemma_writer_appended_wf(w: WriterState, port: u16)
    requires
        w.wf(),
        w.can_append(port),
    ensures
        w.appended(port).wf(),
{
    lemma_series_fresh_wf(port, w.increment);
    lemma_series_appended_wf(w.series_for(port));
}

/// Writes the series of all ports.
pub struct Writer {
    increment: u64,
    datapoint_writers: HashMap<u16, DatapointWriter>,
}

impl View for Writer {
    type V = WriterState;

    closed spec fn view(&self) -> WriterState {
        WriterState {
            increment: self.increment,
            series: self.datapoint_writers@.map_values(|w: DatapointWriter| w@),
        }
    }
}

impl Writer {
    /// A writer without series, whose column files grow by `increment` bytes.
    /// An increment that cannot hold one value is refused.
    pub fn with_increment(increment: u64) -> (r: Result<Writer, StorageError>)
        ensures
            match r {
                Ok(w) => {
                    &&& increment >= VALUE_WIDTH
                    &&& w@ == WriterState::fresh(increment)
                    &&& w@.wf()
                },
                Err(e) => increment < VALUE_WIDTH && e == StorageError::InvalidIncrement,
            },
    {
        if increment < VALUE_WIDTH {
            return Err(StorageError::InvalidIncrement);
        }
        let w = Writer { increment, datapoint_writers: HashMap::new() };
        assert(w@.series =~= Map::empty());
        Ok(w)
    }

    /// A writer without series, whose column files grow by four memory pages
    /// of this machine.
    pub fn new() -> (r: Result<Writer, StorageError>)
        ensures
            match r {
                Ok(w) => {
                    &&& w@ == WriterState::fresh(w@.increment)
                    &&& w@.wf()
                    &&& w@.increment % PAGES_PER_INCREMENT == 0
                },
                Err(e) => e == StorageError::InvalidIncrement,
            },
    {
        match increment() {
            Some(increment) => Writer::with_increment(increment),
            None => Err(StorageError::InvalidIncrement),
        }
    }

    /// Stores one observation: returns the operations that append the row
    /// `(ts, val)` to the series of `port`, which is begun if this is the
    /// first row of the port.
    pub fn append(&mut self, port: u16, ts: u64, val: u64) -> (r: Result<
        Vec<FileOp>,
        StorageError,
    >)
        requires
            old(self)@.wf(),
        ensures
            match r {
                Ok(ops) => {
                    &&& old(self)@.can_append(port)
                    &&& ops@ == old(self)@.append_ops(port, ts, val)
                    &&& final(self)@ == old(self)@.appended(port)
                    &&& final(self)@.wf()
                },
                Err(e) => {
                    &&& !old(self)@.can_append(port)
                    &&& e == StorageError::CapacityOverflow
                    &&& final(self)@ == old(self)@
                },
            },
    {
        proof {
            if old(self)@.can_append(port) {
                lemma_writer_appended_wf(old(self)@, port);
            }
            lemma_series_fresh_wf(port, self.increment);
        }
        let found: Option<DatapointWriter> = match self.datapoint_writers.get(&port) {
            Some(w) => Some(*w),
            None => None,
        };
        if let Some(mut writer) = found {
            assert(old(self)@.series.contains_key(port));
            assert(writer@ == old(self)@.series[port]);
            let ops = match writer.append(ts, val) {
                Ok(ops) => ops,
                Err(e) => return Err(e),
            };
            self.datapoint_writers.insert(port, writer);
            assert(self@.series =~= old(self)@.appended(port).series);
            Ok(ops)
        } else {
            assert(!old(self)@.series.contains_key(port));
            let (mut writer, mut ops) = match DatapointWriter::new(port, self.increment) {
                Ok(made) => made,
                Err(e) => return Err(e),
            };
            let mut row_ops = match writer.append(ts, val) {
                Ok(ops) => ops,
                Err(e) => return Err(e),
            };
            ops.append(&mut row_ops);
            self.datapoint_writers.insert(port, writer);
            assert(self@.series =~= old(self)@.appended(port).series);
            Ok(ops)
        }
    }

    /// Stores `records` in their order, as the consumer of a queue of
    /// observations does: returns the operations for the records that could
    /// be stored, and the error that stopped the run, if one did. No record
    /// behind the one that failed is stored.
    pub fn run(&mut self, records: &[Record]) -> (r: (Vec<FileOp>, Option<StorageError>))
        requires
            old(self)@.wf(),
        ensures
            ({
                let n = old(self)@.consumed(records@);
                &&& n <= records@.len()
                &&& r.0@ == old(self)@.run_ops(records@.take(n as int))
                &&& final(self)@ == old(self)@.ran(records@.take(n as int))
                &&& final(self)@.wf()
                &&& r.1 == if n == records@.len() {
                    None
                } else {
                    Some(StorageError::CapacityOverflow)
                }
            }),
    {
        let mut ops: Vec<FileOp> = Vec::new();
        let mut i: usize = 0;
        while i < records.len()
            invariant
                i <= records.len(),
                old(self)@.wf(),
                self@.wf(),
                old(self)@.consumed(records@.take(i as int)) == i,
                ops@ == old(self)@.run_ops(records@.take(i as int)),
                self@ == old(self)@.ran(records@.take(i as int)),
            decreases records.len() - i,
        {
            let record = records[i];
            proof {
                assert(records@.take(i + 1).drop_last() == records@.take(i as int));
                assert(records@.take(i + 1).last() == record);
            }
            match self.append(record.port, record.ts, record.val) {
                Ok(mut row_ops) => {
                    ops.append(&mut row_ops);
                },
                Err(e) => {
                    proof {
                        lemma_consumed_stops(old(self)@, records@, i as int);
                    }
                    return (ops, Some(e));
                },
            }
            i += 1;
        }
        assert(records@.take(i as int) == records@);
        (ops, None)
    }
}

/// Once a record cannot be stored, none behind it is consumed.
pub proof fn lemma_consumed_stops(w: WriterState, records: Seq<Record>, i: int)
    requires
        0 <= i < records.len(),
        w.consumed(records.take(i)) == i,
        !w.ran(records.take(i)).can_append(records[i].port),
    ensures
        w.consumed(records) == i,
    decreases records.len(),
{
    if i == records.len() - 1 {
        assert(records.drop_last() == records.take(i));
    } else {
        assert(records.drop_last().take(i) == records.take(i));
        lemma_consumed_stops(w, records.drop_last(), i);
    }
}

} // verus!
