//! The file operations that the storage writer asks for. The writer decides
//! what is written where; whoever owns the files carries the operations out,
//! in the order in which they are given.

use crate::text::{decimal, push_char, push_decimal, push_str};
use vstd::bytes::{spec_u64_to_le_bytes, u64_to_le_bytes};
use vstd::prelude::*;

verus! {

/// Width in bytes of every stored value.
pub const VALUE_WIDTH: u64 = 8;

/// Why the storage writer gave up.
#[derive(Clone, Copy, Debug, PartialEq, Eq)]
pub enum StorageError {
    /// The growth increment is smaller than one value.
    InvalidIncrement,
    /// A column file cannot grow further: its size would not fit in 64 bits.
    CapacityOverflow,
}

impl StorageError {
    /// What went wrong, in words.
    pub open spec fn message_text(self) -> Seq<char> {
        match self {
            StorageError::InvalidIncrement => "growth increment is smaller than one value"@,
            StorageError::CapacityOverflow => "column file cannot grow any further"@,
        }
    }

    /// What went wrong, in words.
    pub fn message(&self) -> (r: &'static str)
        ensures
            r@ == self.message_text(),
    {
        match self {
            StorageError::InvalidIncrement => "growth increment is smaller than one value",
            StorageError::CapacityOverflow => "column file cannot grow any further",
        }
    }
}

/// The three files of a per-port time series.
#[derive(Clone, Copy, Debug, PartialEq, Eq)]
pub enum FileRole {
    /// The column of timestamps, in nanoseconds since the Unix epoch.
    Timestamps,
    /// The column of values, in bytes of payload.
    Values,
    /// The number of rows that both columns hold.
    Count,
}

impl FileRole {
    /// The suffix of the names of the files with this role.
    pub open spec fn extension_text(self) -> Seq<char> {
        match self {
            FileRole::Timestamps => "ts"@,
            FileRole::Values => "val"@,
            FileRole::Count => "count"@,
        }
    }

    /// The suffix of the names of the files with this role.
    pub fn extension(&self) -> (r: &'static str)
        ensures
            r@ == self.extension_text(),
    {
        match self {
            FileRole::Timestamps => "ts",
            FileRole::Values => "val",
            FileRole::Count => "count",
        }
    }
}

/// The name of the file `role` of `port` in the output directory: the port
/// in decimal, a dot, and the suffix of the role.
pub open spec fn file_name_text(port: u16, role: FileRole) -> Seq<char> {
    decimal(port as nat) + seq!['.'] + role.extension_text()
}

/// The name of the file `role` of `port` in the output directory.
pub fn file_name(port: u16, role: FileRole) -> (r: String)
    ensures
        r@ == file_name_text(port, role),
{
    let mut out = String::new();
    push_decimal(&mut out, port as u64);
    assert(out@ == decimal(port as nat));
    push_char(&mut out, '.');
    push_str(&mut out, role.extension());
    out
}

/// What is done to one file.
#[derive(Clone, Copy, Debug, PartialEq, Eq)]
pub enum FileAction {
    /// Create the file, or empty it if it exists, and give it `size` zero bytes.
    Create { size: u64 },
    /// Set the length of the file to `size`; bytes already in it stay, and
    /// new bytes are zero.
    Resize { size: u64 },
    /// Store `bytes` at `offset`.
    Write { offset: u64, bytes: [u8; 8] },
}

/// One operation on one file of the series of `port`.
#[derive(Clone, Copy, Debug, PartialEq, Eq)]
pub struct FileOp {
    pub port: u16,
    pub role: FileRole,
    pub action: FileAction,
}

/// The eight bytes that store `val`: little-endian.
pub open spec fn le_bytes(val: u64) -> Seq<u8> {
    spec_u64_to_le_bytes(val)
}

/// The array of the eight bytes that store `val`.
pub open spec fn le_array(val: u64) -> [u8; 8] {
    choose|a: [u8; 8]| a@ == le_bytes(val)
}

/// The creation of the file `role` of `port`, with `size` zero bytes.
pub open spec fn create_op(port: u16, role: FileRole, size: u64) -> FileOp {
    FileOp { port, role, action: FileAction::Create { size } }
}

/// The change of the length of the file `role` of `port` to `size`.
pub open spec fn resize_op(port: u16, role: FileRole, size: u64) -> FileOp {
    FileOp { port, role, action: FileAction::Resize { size } }
}

/// The write of `val` at `offset` in the file `role` of `port`.
pub open spec fn write_op(port: u16, role: FileRole, offset: u64, val: u64) -> FileOp {
    FileOp { port, role, action: FileAction::Write { offset, bytes: le_array(val) } }
}

/// `le_array` holds the little-endian bytes of its argument.
pub proof fn lemma_le_array(val: u64)
    ensures
        le_array(val)@ == le_bytes(val),
        le_bytes(val).len() == 8,
{
    vstd::bytes::lemma_auto_spec_u64_to_from_le_bytes();
    let s = le_bytes(val);
    let a: [u8; 8] = vstd::array::spec_array_fill_for_copy_type(0u8);
    let a = vstd::array::spec_array_update(a, 0, s[0]);
    let a = vstd::array::spec_array_update(a, 1, s[1]);
    let a = vstd::array::spec_array_update(a, 2, s[2]);
    let a = vstd::array::spec_array_update(a, 3, s[3]);
    let a = vstd::array::spec_array_update(a, 4, s[4]);
    let a = vstd::array::spec_array_update(a, 5, s[5]);
    let a = vstd::array::spec_array_update(a, 6, s[6]);
    let a = vstd::array::spec_array_update(a, 7, s[7]);
    assert(a@ =~= s);
}

impl FileOp {
    /// The creation of a file with `size` zero bytes.
    pub fn create(port: u16, role: FileRole, size: u64) -> (op: FileOp)
        ensures
            op == create_op(port, role, size),
    {
        FileOp { port, role, action: FileAction::Create { size } }
    }

    /// The change of a file's length to `size`.
    pub fn resize(port: u16, role: FileRole, size: u64) -> (op: FileOp)
        ensures
            op == resize_op(port, role, size),
    {
        FileOp { port, role, action: FileAction::Resize { size } }
    }

    /// The write of `val`, as eight little-endian bytes, at `offset`.
    pub fn write(port: u16, role: FileRole, offset: u64, val: u64) -> (op: FileOp)
        ensures
            op == write_op(port, role, offset, val),
    {
        let v = u64_to_le_bytes(val);
        let bytes: [u8; 8] = [v[0], v[1], v[2], v[3], v[4], v[5], v[6], v[7]];
        proof {
            lemma_le_array(val);
            assert(bytes@ =~= le_array(val)@);
            assert(bytes =~= le_array(val));
        }
        FileOp { port, role, action: FileAction::Write { offset, bytes } }
    }
}

} // verus!
