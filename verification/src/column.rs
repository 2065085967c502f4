//! Growable columns of 64-bit values and the row counter of a series: where
//! the next value goes, and when the file behind a column must grow.

use crate::ops::{
    create_op, resize_op, write_op, FileOp, FileRole, StorageError, VALUE_WIDTH,
};
use vstd::prelude::*;

verus! {

/// The state of a column: which file it fills, how many bytes of it hold
/// values, how long the file is, and by how much it grows.
pub struct ColumnState {
    pub port: u16,
    pub role: FileRole,
    pub len: u64,
    pub cap: u64,
    pub increment: u64,
}

impl ColumnState {
    /// Values fill the column without gaps, the file is longer than what is
    /// filled, and its length is a multiple of the increment.
    pub open spec fn wf(self) -> bool {
        &&& self.increment >= VALUE_WIDTH
        &&& self.len % VALUE_WIDTH == 0
        &&& self.len < self.cap
        &&& self.cap % self.increment == 0
    }

    /// The state of a column whose file was just created.
    pub open spec fn fresh(port: u16, role: FileRole, increment: u64) -> ColumnState {
        ColumnState { port, role, len: 0, cap: increment, increment }
    }

    /// The number of values in the column.
    pub open spec fn rows(self) -> nat {
        (self.len / VALUE_WIDTH) as nat
    }

    /// The file must grow before the next value is written.
    pub open spec fn is_full(self) -> bool {
        self.len + VALUE_WIDTH >= self.cap
    }

    /// The next value can be written: the file need not grow, or can.
    pub open spec fn can_append(self) -> bool {
        !self.is_full() || self.cap + self.increment <= u64::MAX
    }

    /// The operation that grows the file by one increment, where it must.
    pub open spec fn growth(self) -> Option<FileOp> {
        if self.is_full() {
            Some(resize_op(self.port, self.role, (self.cap + self.increment) as u64))
        } else {
            None
        }
    }

    /// The state after the file has grown where it had to.
    pub open spec fn resized(self) -> ColumnState {
        if self.is_full() {
            ColumnState { cap: (self.cap + self.increment) as u64, ..self }
        } else {
            self
        }
    }

    /// The state after one more value.
    pub open spec fn appended(self) -> ColumnState {
        ColumnState { len: (self.len + VALUE_WIDTH) as u64, ..self.resized() }
    }

    /// The operations that append `val`: the growth of the file where it is
    /// due, then the write of the value behind the values already there.
    pub open spec fn append_ops(self, val: u64) -> Seq<FileOp> {
        match self.growth() {
            Some(op) => seq![op, write_op(self.port, self.role, self.len, val)],
            None => seq![write_op(self.port, self.role, self.len, val)],
        }
    }
}

/// Appending keeps a column well-formed, adds one row, and never shrinks the
/// file.
pub proof fn lemma_appended_wf(c: ColumnState)
    requires
        c.wf(),
        c.can_append(),
    ensures
        c.appended().wf(),
        c.appended().rows() == c.rows() + 1,
        c.appended().cap >= c.cap,
        c.len + VALUE_WIDTH <= c.appended().cap,
{
    let cap = c.cap as int;
    let inc = c.increment as int;
    if c.is_full() {
        assert((cap + inc) % inc == 0) by (nonlinear_arith)
            requires
                cap % inc == 0,
                inc > 0,
        ;
    }
    let len = c.len as int;
    assert((len + 8) % 8 == 0 && (len + 8) / 8 == len / 8 + 1) by (nonlinear_arith)
        requires
            len % 8 == 0,
    ;
}

/// Writes 64-bit values one behind the other into a file that grows by a
/// fixed increment.
#[derive(Clone, Copy, Debug)]
pub struct U64ColWriter {
    port: u16,
    role: FileRole,
    len: u64,
    cap: u64,
    increment: u64,
}

impl View for U64ColWriter {
    type V = ColumnState;

    closed spec fn view(&self) -> ColumnState {
        ColumnState {
            port: self.port,
            role: self.role,
            len: self.len,
            cap: self.cap,
            increment: self.increment,
        }
    }
}

impl U64ColWriter {
    /// A column for the file `role` of `port`, and the operation that creates
    /// the file with one increment of capacity. An increment that cannot hold
    /// one value is refused.
    pub fn new(port: u16, role: FileRole, increment: u64) -> (r: Result<
        (U64ColWriter, FileOp),
        StorageError,
    >)
        ensures
            match r {
                Ok((col, op)) => {
                    &&& increment >= VALUE_WIDTH
                    &&& col@ == ColumnState::fresh(port, role, increment)
                    &&& col@.wf()
                    &&& op == create_op(port, role, increment)
                },
                Err(e) => increment < VALUE_WIDTH && e == StorageError::InvalidIncrement,
            },
    {
        if increment < VALUE_WIDTH {
            return Err(StorageError::InvalidIncrement);
        }
        let cap = increment;
        assert(cap % increment == 0) by (nonlinear_arith)
            requires
                cap == increment,
                increment > 0,
        ;
        Ok((U64ColWriter { port, role, len: 0, cap, increment }, FileOp::create(port, role, cap)))
    }

    /// Number of bytes that hold values.
    pub fn len(&self) -> (r: u64)
        ensures
            r == self@.len,
    {
        self.len
    }

    /// Length of the file.
    pub fn cap(&self) -> (r: u64)
        ensures
            r == self@.cap,
    {
        self.cap
    }

    /// Makes room for one more value: where the file is full it grows by one
    /// increment, and the operation that resizes it is returned.
    pub fn may_resize(&mut self) -> (r: Result<Option<FileOp>, StorageError>)
        requires
            old(self)@.wf(),
        ensures
            match r {
                Ok(op) => {
                    &&& old(self)@.can_append()
                    &&& op == old(self)@.growth()
                    &&& final(self)@ == old(self)@.resized()
                },
                Err(e) => {
                    &&& !old(self)@.can_append()
                    &&& e == StorageError::CapacityOverflow
                    &&& *final(self) == *old(self)
                },
            },
    {
        if self.cap - self.len > VALUE_WIDTH {
            return Ok(None);
        }
        if self.cap > u64::MAX - self.increment {
            return Err(StorageError::CapacityOverflow);
        }
        self.cap = self.cap + self.increment;
        Ok(Some(FileOp::resize(self.port, self.role, self.cap)))
    }

    /// Appends `val`: returns the operations that make room for it and store
    /// it, and moves on to the next row.
    pub fn append(&mut self, val: u64) -> (r: Result<Vec<FileOp>, StorageError>)
        requires
            old(self)@.wf(),
        ensures
            match r {
                Ok(ops) => {
                    &&& old(self)@.can_append()
                    &&& ops@ == old(self)@.append_ops(val)
                    &&& final(self)@ == old(self)@.appended()
                    &&& final(self)@.wf()
                },
                Err(e) => {
                    &&& !old(self)@.can_append()
                    &&& e == StorageError::CapacityOverflow
                    &&& *final(self) == *old(self)
                },
            },
    {
        proof {
            if old(self)@.can_append() {
                lemma_appended_wf(old(self)@);
            }
        }
        let mut ops: Vec<FileOp> = Vec::new();
        match self.may_resize() {
            Ok(Some(op)) => ops.push(op),
            Ok(None) => {},
            Err(e) => return Err(e),
        }
        let offset = self.len;
        ops.push(FileOp::write(self.port, self.role, offset, val));
        self.len = self.len + VALUE_WIDTH;
        Ok(ops)
    }
}

/// The number of rows of a series, as its count file holds it.
#[derive(Clone, Copy, Debug)]
pub struct CountWriter {
    port: u16,
    count: u64,
}

/// The operations that create a count file and store zero in it.
pub open spec fn count_create_ops(port: u16) -> Seq<FileOp> {
    seq![
        create_op(port, FileRole::Count, VALUE_WIDTH),
        write_op(port, FileRole::Count, 0, 0),
    ]
}

impl CountWriter {
    /// The port whose rows are counted.
    pub closed spec fn port(&self) -> u16 {
        self.port
    }

    /// The count that the file holds once the operations are carried out.
    pub closed spec fn count(&self) -> u64 {
        self.count
    }

    /// A counter at zero, and the operations that create its file of one
    /// value and store the zero.
    pub fn new(port: u16) -> (r: (CountWriter, Vec<FileOp>))
        ensures
            r.0.port() == port,
            r.0.count() == 0,
            r.1@ == count_create_ops(port),
    {
        let mut count_writer = CountWriter { port, count: 0 };
        let mut ops: Vec<FileOp> = Vec::new();
        ops.push(FileOp::create(port, FileRole::Count, VALUE_WIDTH));
        ops.push(count_writer.set(0));
        (count_writer, ops)
    }

    /// The current count.
    pub fn get(&self) -> (r: u64)
        ensures
            r == self.count(),
    {
        self.count
    }

    /// Sets the count to `val`; returns the write that stores it.
    pub fn set(&mut self, val: u64) -> (op: FileOp)
        ensures
            final(self).port() == old(self).port(),
            final(self).count() == val,
            op == write_op(old(self).port(), FileRole::Count, 0, val),
    {
        self.count = val;
        FileOp::write(self.port, FileRole::Count, 0, val)
    }

    /// Counts one more row; returns the write that stores the new count.
    pub fn increment(&mut self) -> (op: FileOp)
        requires
            old(self).count() < u64::MAX,
        ensures
            final(self).port() == old(self).port(),
            final(self).count() == old(self).count() + 1,
            op == write_op(old(self).port(), FileRole::Count, 0, (old(self).count() + 1) as u64),
    {
        let count = self.get();
        self.set(count + 1)
    }
}

} // verus!
