//! The port filter: which classified frames become observations, and what is
//! shown for them.

use crate::frame::TcpData;
use crate::report::{format_tcp, tcp_text};
use crate::writer::Record;
use std::collections::HashSet;
use vstd::prelude::*;
use vstd::slice::slice_subrange;

verus! {

broadcast use vstd::std_specs::hash::group_hash_axioms;

/// What is done with one classified frame.
pub struct Dispatch {
    /// The observation to hand to the storage writer, if the frame is one.
    pub record: Option<Record>,
    /// The text to show; empty where nothing is shown.
    pub report: String,
}

/// The number of payload bytes of a frame of `frame_len` bytes.
pub open spec fn payload_len(frame: TcpData, frame_len: u32) -> u64 {
    if frame_len >= frame.data_offset {
        (frame_len - frame.data_offset) as u64
    } else {
        0
    }
}

/// The captured payload bytes of a frame whose captured bytes are `data`.
pub open spec fn payload_part(frame: TcpData, data: Seq<u8>) -> Seq<u8> {
    if frame.data_offset <= data.len() {
        data.skip(frame.data_offset as int)
    } else {
        Seq::empty()
    }
}

/// The observation that a frame gives: one for a frame that brings payload
/// to a monitored port, with the port, the capture time and the number of
/// payload bytes; none for every other frame.
pub open spec fn observation(frame: TcpData, frame_len: u32, ports: Set<u16>) -> Option<Record> {
    if ports.contains(frame.dest.port) && payload_len(frame, frame_len) > 0 {
        Some(
            Record { port: frame.dest.port, ts: frame.ts, val: payload_len(frame, frame_len) },
        )
    } else {
        None
    }
}

/// The text shown for a frame: a frame to a monitored port is shown as
/// received; a frame from a monitored port to another port is shown as sent,
/// at verbosity 4 and above; other frames are not shown.
pub open spec fn report_text(
    frame: TcpData,
    frame_len: u32,
    data: Seq<u8>,
    ports: Set<u16>,
    verbosity: u8,
) -> Seq<char> {
    if ports.contains(frame.dest.port) {
        tcp_text(frame, payload_len(frame, frame_len), payload_part(frame, data), true, verbosity)
    } else if ports.contains(frame.src.port) && verbosity >= 4 {
        tcp_text(frame, payload_len(frame, frame_len), payload_part(frame, data), false, verbosity)
    } else {
        Seq::empty()
    }
}

/// Decides what is done with the classified frame `frame`, which had
/// `frame_len` bytes of which `data` were captured. The observation does not
/// depend on the verbosity.
pub fn dispatch(
    frame: &TcpData,
    frame_len: u32,
    data: &[u8],
    ports: &HashSet<u16>,
    verbosity: u8,
) -> (r: Dispatch)
    ensures
        r.record == observation(*frame, frame_len, ports@),
        r.report@ == report_text(*frame, frame_len, data@, ports@, verbosity),
        r.record is Some <==> ports@.contains(frame.dest.port) && frame_len > frame.data_offset,
        r.record matches Some(record) ==> record.port == frame.dest.port && record.ts == frame.ts
            && record.val == frame_len - frame.data_offset && record.val > 0,
{
    let data_len: u64 = if frame_len as usize >= frame.data_offset {
        (frame_len as usize - frame.data_offset) as u64
    } else {
        0
    };
    let data_part = if frame.data_offset <= data.len() {
        slice_subrange(data, frame.data_offset, data.len())
    } else {
        slice_subrange(data, 0, 0)
    };
    if ports.contains(&frame.dest.port) {
        let record = if data_len > 0 {
            Some(Record { port: frame.dest.port, ts: frame.ts, val: data_len })
        } else {
            None
        };
        Dispatch { record, report: format_tcp(frame, data_len, data_part, true, verbosity) }
    } else if ports.contains(&frame.src.port) && verbosity >= 4 {
        Dispatch { record: None, report: format_tcp(frame, data_len, data_part, false, verbosity) }
    } else {
        Dispatch { record: None, report: String::new() }
    }
}

} // verus!
