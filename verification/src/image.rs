//! What the file operations do to the files of the output directory, and what
//! a reader finds in them: the meaning of the operations, as a model and as
//! an in-memory directory that carries them out.

use crate::ops::{le_bytes, FileAction, FileOp, FileRole, VALUE_WIDTH};
use std::collections::HashMap;
use vstd::bytes::{lemma_auto_spec_u64_to_from_le_bytes, spec_u64_from_le_bytes, u64_from_le_bytes};
use vstd::prelude::*;
use vstd::slice::slice_subrange;

verus! {

broadcast use vstd::std_specs::hash::group_hash_axioms;

/// The files of the output directory: the bytes of each file that exists,
/// under the port and the role of the file.
pub type Files = Map<(u16, FileRole), Seq<u8>>;

/// `n` zero bytes.
pub open spec fn zeros(n: int) -> Seq<u8> {
    Seq::new(n as nat, |i: int| 0u8)
}

/// The bytes of a file after its length is set to `size`: cut off, or
/// extended with zero bytes.
pub open spec fn resized(bytes: Seq<u8>, size: int) -> Seq<u8> {
    if size <= bytes.len() {
        bytes.take(size)
    } else {
        bytes + zeros(size - bytes.len())
    }
}

/// The bytes of a file after `data` is stored at `offset`. A write that does
/// not lie inside the file changes nothing.
pub open spec fn written(bytes: Seq<u8>, offset: int, data: Seq<u8>) -> Seq<u8> {
    if offset + data.len() <= bytes.len() {
        bytes.take(offset) + data + bytes.skip(offset + data.len())
    } else {
        bytes
    }
}

/// The files after one operation. Resizing or writing a file that does not
/// exist changes nothing.
pub open spec fn apply(files: Files, op: FileOp) -> Files {
    let key = (op.port, op.role);
    match op.action {
        FileAction::Create { size } => files.insert(key, zeros(size as int)),
        FileAction::Resize { size } => if files.contains_key(key) {
            files.insert(key, resized(files[key], size as int))
        } else {
            files
        },
        FileAction::Write { offset, bytes } => if files.contains_key(key) {
            files.insert(key, written(files[key], offset as int, bytes@))
        } else {
            files
        },
    }
}

/// The files after the operations `ops`, carried out in their order.
pub open spec fn apply_all(files: Files, ops: Seq<FileOp>) -> Files
    decreases ops.len(),
{
    if ops.len() == 0 {
        files
    } else {
        apply(apply_all(files, ops.drop_last()), ops.last())
    }
}

/// The value that a file holds at row `index`: eight little-endian bytes.
pub open spec fn value_at(bytes: Seq<u8>, index: int) -> u64 {
    spec_u64_from_le_bytes(
        bytes.subrange(VALUE_WIDTH * index, VALUE_WIDTH * index + VALUE_WIDTH),
    )
}

/// The file holds row `index` in full.
pub open spec fn holds_row(bytes: Seq<u8>, index: int) -> bool {
    0 <= index && VALUE_WIDTH * index + VALUE_WIDTH <= bytes.len()
}

/// The row count that a reader finds for `port`: what the count file holds,
/// and zero while there is no count file.
pub open spec fn stored_count(files: Files, port: u16) -> nat {
    let key = (port, FileRole::Count);
    if files.contains_key(key) && holds_row(files[key], 0) {
        value_at(files[key], 0) as nat
    } else {
        0
    }
}

/// Row `index` of the series of `port`: its timestamp and its value.
pub open spec fn stored_row(files: Files, port: u16, index: int) -> (u64, u64) {
    (
        value_at(files[(port, FileRole::Timestamps)], index),
        value_at(files[(port, FileRole::Values)], index),
    )
}

/// Row `index` of the series of `port` can be read: the count reaches it, and
/// both column files hold it.
pub open spec fn row_readable(files: Files, port: u16, index: int) -> bool {
    &&& 0 <= index < stored_count(files, port)
    &&& files.contains_key((port, FileRole::Timestamps))
    &&& holds_row(files[(port, FileRole::Timestamps)], index)
    &&& files.contains_key((port, FileRole::Values))
    &&& holds_row(files[(port, FileRole::Values)], index)
}

/// The rows that a reader finds for `port`: the first rows of both columns,
/// as many as the count file says.
pub open spec fn stored_rows(files: Files, port: u16) -> Seq<(u64, u64)> {
    Seq::new(stored_count(files, port), |i: int| stored_row(files, port, i))
}

/// Carrying out two runs of operations one after the other is carrying out
/// their concatenation.
pub proof fn lemma_apply_all_concat(files: Files, a: Seq<FileOp>, b: Seq<FileOp>)
    ensures
        apply_all(files, a + b) == apply_all(apply_all(files, a), b),
    decreases b.len(),
{
    if b.len() == 0 {
        assert(a + b == a);
    } else {
        assert((a + b).drop_last() == a + b.drop_last());
        assert((a + b).last() == b.last());
        lemma_apply_all_concat(files, a, b.drop_last());
    }
}

/// Carrying out one operation.
pub proof fn lemma_apply_all_one(files: Files, op: FileOp)
    ensures
        apply_all(files, seq![op]) == apply(files, op),
{
    let ops = seq![op];
    assert(ops.drop_last() == Seq::<FileOp>::empty());
    assert(apply_all(files, ops.drop_last()) == files);
}

/// Carrying out two operations.
pub proof fn lemma_apply_all_two(files: Files, first: FileOp, second: FileOp)
    ensures
        apply_all(files, seq![first, second]) == apply(apply(files, first), second),
{
    let ops = seq![first, second];
    assert(ops.drop_last() == seq![first]);
    lemma_apply_all_one(files, first);
}

/// A value that was written is read back, and the rows beside it are as they
/// were.
pub proof fn lemma_written_value(bytes: Seq<u8>, index: int, val: u64)
    requires
        holds_row(bytes, index),
    ensures
        written(bytes, VALUE_WIDTH * index, le_bytes(val)).len() == bytes.len(),
        value_at(written(bytes, VALUE_WIDTH * index, le_bytes(val)), index) == val,
        forall|other: int|
            other != index && holds_row(bytes, other) ==> value_at(
                written(bytes, VALUE_WIDTH * index, le_bytes(val)),
                other,
            ) == #[trigger] value_at(bytes, other),
        forall|k: int|
            0 <= k < VALUE_WIDTH * index ==> written(bytes, VALUE_WIDTH * index, le_bytes(val))[k]
                == bytes[k],
{
    lemma_auto_spec_u64_to_from_le_bytes();
    let offset = VALUE_WIDTH * index;
    let data = le_bytes(val);
    let after = written(bytes, offset, data);
    assert(after.subrange(offset, offset + VALUE_WIDTH) == data);
    assert forall|other: int| other != index && holds_row(bytes, other) implies value_at(
        after,
        other,
    ) == #[trigger] value_at(bytes, other) by {
        assert(after.subrange(VALUE_WIDTH * other, VALUE_WIDTH * other + VALUE_WIDTH)
            == bytes.subrange(VALUE_WIDTH * other, VALUE_WIDTH * other + VALUE_WIDTH));
    }
}

/// A file that grows keeps the rows that it held.
pub proof fn lemma_resized_value(bytes: Seq<u8>, size: int)
    requires
        bytes.len() <= size,
    ensures
        resized(bytes, size).len() == size,
        forall|index: int|
            holds_row(bytes, index) ==> value_at(resized(bytes, size), index)
                == #[trigger] value_at(bytes, index),
        forall|k: int| 0 <= k < bytes.len() ==> resized(bytes, size)[k] == bytes[k],
{
    let after = resized(bytes, size);
    assert forall|index: int| holds_row(bytes, index) implies value_at(after, index)
        == #[trigger] value_at(bytes, index) by {
        assert(after.subrange(VALUE_WIDTH * index, VALUE_WIDTH * index + VALUE_WIDTH)
            == bytes.subrange(VALUE_WIDTH * index, VALUE_WIDTH * index + VALUE_WIDTH));
    }
}

/// The operation can be carried out on `files` in memory: its file is
/// there where it must be, a write lies inside it, and a size can be
/// allocated.
pub open spec fn feasible(files: Files, op: FileOp) -> bool {
    let key = (op.port, op.role);
    match op.action {
        FileAction::Create { size } => size <= usize::MAX,
        FileAction::Resize { size } => files.contains_key(key) && size <= usize::MAX,
        FileAction::Write { offset, bytes } => files.contains_key(key) && offset + VALUE_WIDTH
            <= files[key].len(),
    }
}

/// The number under which a file is kept.
pub open spec fn slot_of(port: u16, role: FileRole) -> u32 {
    (port * 4 + match role {
        FileRole::Timestamps => 0int,
        FileRole::Values => 1int,
        FileRole::Count => 2int,
    }) as u32
}

fn slot(port: u16, role: FileRole) -> (r: u32)
    ensures
        r == slot_of(port, role),
{
    let index: u32 = match role {
        FileRole::Timestamps => 0,
        FileRole::Values => 1,
        FileRole::Count => 2,
    };
    port as u32 * 4 + index
}

/// An output directory held in memory: it carries file operations out as
/// files do, and reads rows back as a reader of the files would.
pub struct MemoryDir {
    files: HashMap<u32, Vec<u8>>,
}

impl View for MemoryDir {
    type V = Files;

    closed spec fn view(&self) -> Files {
        Map::new(
            |key: (u16, FileRole)| self.files@.contains_key(slot_of(key.0, key.1)),
            |key: (u16, FileRole)| self.files@[slot_of(key.0, key.1)]@,
        )
    }
}

impl MemoryDir {
    /// A directory without files.
    pub fn new() -> (r: MemoryDir)
        ensures
            r@ == Map::<(u16, FileRole), Seq<u8>>::empty(),
    {
        let r = MemoryDir { files: HashMap::new() };
        assert(r@ =~= Map::<(u16, FileRole), Seq<u8>>::empty());
        r
    }

    /// The bytes of the file `role` of `port`, if the file exists.
    pub fn file(&self, port: u16, role: FileRole) -> (r: Option<&Vec<u8>>)
        ensures
            match r {
                Some(bytes) => self@.contains_key((port, role)) && bytes@ == self@[(port, role)],
                None => !self@.contains_key((port, role)),
            },
    {
        self.files.get(&slot(port, role))
    }

    fn put(&mut self, port: u16, role: FileRole, bytes: Vec<u8>)
        ensures
            final(self)@ == old(self)@.insert((port, role), bytes@),
    {
        self.files.insert(slot(port, role), bytes);
        assert(self@ =~= old(self)@.insert((port, role), bytes@)) by {
            assert forall|key: (u16, FileRole)| key != (port, role) implies slot_of(key.0, key.1)
                != slot_of(port, role) by {}
        }
    }

    /// Carries out one operation. An operation that is not feasible changes
    /// nothing, and `false` is returned.
    pub fn apply(&mut self, op: &FileOp) -> (done: bool)
        ensures
            done == feasible(old(self)@, *op),
            done ==> final(self)@ == apply(old(self)@, *op),
            !done ==> final(self)@ == old(self)@,
    {
        match op.action {
            FileAction::Create { size } => {
                if size > usize::MAX as u64 {
                    return false;
                }
                let mut bytes: Vec<u8> = Vec::new();
                bytes.resize(size as usize, 0u8);
                assert(bytes@ =~= zeros(size as int));
                self.put(op.port, op.role, bytes);
                true
            },
            FileAction::Resize { size } => {
                if size > usize::MAX as u64 {
                    return false;
                }
                let mut bytes = match self.files.remove(&slot(op.port, op.role)) {
                    Some(bytes) => bytes,
                    None => {
                        assert(self@ =~= old(self)@);
                        return false;
                    },
                };
                let ghost before = bytes@;
                assert(old(self)@.contains_key((op.port, op.role)) && old(self)@[(
                    op.port,
                    op.role,
                )] == before);
                bytes.resize(size as usize, 0u8);
                assert(bytes@ =~= resized(before, size as int));
                self.put(op.port, op.role, bytes);
                assert(self@ =~= apply(old(self)@, *op));
                true
            },
            FileAction::Write { offset, bytes: data } => {
                let mut bytes = match self.files.remove(&slot(op.port, op.role)) {
                    Some(bytes) => bytes,
                    None => {
                        assert(self@ =~= old(self)@);
                        return false;
                    },
                };
                let ghost before = bytes@;
                assert(old(self)@.contains_key((op.port, op.role)) && old(self)@[(
                    op.port,
                    op.role,
                )] == before);
                let fits = offset <= usize::MAX as u64 && bytes.len() >= VALUE_WIDTH as usize
                    && offset as usize <= bytes.len() - VALUE_WIDTH as usize;
                if fits {
                    let start = offset as usize;
                    let mut i: usize = 0;
                    while i < 8
                        invariant
                            i <= 8,
                            bytes.len() == before.len(),
                            start + 8 <= bytes.len(),
                            forall|k: int|
                                0 <= k < before.len() ==> bytes@[k] == if start <= k < start + i {
                                    data@[k - start]
                                } else {
                                    before[k]
                                },
                        decreases 8 - i,
                    {
                        bytes[start + i] = data[i];
                        i += 1;
                    }
                    assert(bytes@ =~= written(before, offset as int, data@));
                }
                self.put(op.port, op.role, bytes);
                assert(self@ =~= if fits {
                    apply(old(self)@, *op)
                } else {
                    old(self)@
                });
                fits
            },
        }
    }

    /// Carries out `ops` in their order, up to the first that is not
    /// feasible; returns how many were carried out.
    pub fn apply_all(&mut self, ops: &[FileOp]) -> (n: usize)
        ensures
            n <= ops@.len(),
            final(self)@ == apply_all(old(self)@, ops@.take(n as int)),
            forall|i: int|
                0 <= i < n ==> feasible(
                    apply_all(old(self)@, #[trigger] ops@.take(i)),
                    ops@[i],
                ),
            n < ops@.len() ==> !feasible(final(self)@, ops@[n as int]),
    {
        let mut n: usize = 0;
        while n < ops.len()
            invariant
                n <= ops@.len(),
                self@ == apply_all(old(self)@, ops@.take(n as int)),
                forall|i: int|
                    0 <= i < n ==> feasible(
                        apply_all(old(self)@, #[trigger] ops@.take(i)),
                        ops@[i],
                    ),
            decreases ops.len() - n,
        {
            proof {
                assert(ops@.take(n + 1).drop_last() == ops@.take(n as int));
                assert(ops@.take(n + 1).last() == ops@[n as int]);
            }
            if !self.apply(&ops[n]) {
                return n;
            }
            n += 1;
        }
        n
    }

    fn value(bytes: &Vec<u8>, index: u64) -> (r: Option<u64>)
        ensures
            match r {
                Some(v) => holds_row(bytes@, index as int) && v == value_at(bytes@, index as int),
                None => !holds_row(bytes@, index as int),
            },
    {
        let rows = bytes.len() / 8;
        if index > usize::MAX as u64 || index as usize >= rows {
            return None;
        }
        let start = index as usize * 8;
        Some(u64_from_le_bytes(slice_subrange(bytes.as_slice(), start, start + 8)))
    }

    /// The row count that a reader finds for `port`.
    pub fn count(&self, port: u16) -> (r: u64)
        ensures
            r == stored_count(self@, port),
    {
        match self.file(port, FileRole::Count) {
            Some(bytes) => match Self::value(bytes, 0) {
                Some(count) => count,
                None => 0,
            },
            None => 0,
        }
    }

    /// Row `index` of the series of `port`, where the count reaches it and
    /// both column files hold it.
    pub fn read_at(&self, port: u16, index: u64) -> (r: Option<(u64, u64)>)
        ensures
            match r {
                Some(row) => row_readable(self@, port, index as int) && row == stored_row(
                    self@,
                    port,
                    index as int,
                ),
                None => !row_readable(self@, port, index as int),
            },
    {
        if index >= self.count(port) {
            return None;
        }
        let ts = match self.file(port, FileRole::Timestamps) {
            Some(bytes) => match Self::value(bytes, index) {
                Some(ts) => ts,
                None => return None,
            },
            None => return None,
        };
        let val = match self.file(port, FileRole::Values) {
            Some(bytes) => match Self::value(bytes, index) {
                Some(val) => val,
                None => return None,
            },
            None => return None,
        };
        Some((ts, val))
    }

    /// The rows that a reader finds for `port`, where the column files hold
    /// as many rows as the count says.
    pub fn rows(&self, port: u16) -> (r: Option<Vec<(u64, u64)>>)
        ensures
            match r {
                Some(rows) => {
                    &&& rows@ == stored_rows(self@, port)
                    &&& forall|i: int|
                        0 <= i < stored_count(self@, port) ==> row_readable(self@, port, i)
                },
                None => exists|i: int|
                    0 <= i < stored_count(self@, port) && !row_readable(self@, port, i),
            },
    {
        let count = self.count(port);
        let mut rows: Vec<(u64, u64)> = Vec::new();
        let mut index: u64 = 0;
        while index < count
            invariant
                index <= count,
                count == stored_count(self@, port),
                rows@.len() == index,
                forall|i: int| 0 <= i < index ==> row_readable(self@, port, i),
                forall|i: int| 0 <= i < index ==> rows@[i] == stored_row(self@, port, i),
            decreases count - index,
        {
            match self.read_at(port, index) {
                Some(row) => rows.push(row),
                None => return None,
            }
            index += 1;
        }
        assert(rows@ =~= stored_rows(self@, port));
        Some(rows)
    }
}

} // verus!
