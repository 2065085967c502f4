//! Classification of captured loopback frames: from the raw bytes of a frame
//! to the addresses, TCP flags and payload offset of an IPv4/TCP segment.

use etherparse::{InternetSlice, SlicedPacket, TransportSlice};
use vstd::prelude::*;
use vstd::slice::slice_subrange;

verus! {

/// Length of the loopback pseudo-header that precedes the IP packet.
pub const LINK_HEADER_LEN: usize = 4;

/// Frames captured with fewer bytes than this are never classified.
pub const MIN_FRAME_LEN: u32 = 32;

/// An IPv4 address and a TCP port.
#[derive(Clone, Copy, Debug, PartialEq, Eq)]
pub struct Addr {
    pub ip: [u8; 4],
    pub port: u16,
}

/// The control bits and the sequence number of a TCP header.
#[derive(Clone, Copy, Debug, PartialEq, Eq)]
pub struct TcpMeta {
    pub ns: bool,
    pub cwr: bool,
    pub ece: bool,
    pub urg: bool,
    pub ack: bool,
    pub psh: bool,
    pub rst: bool,
    pub syn: bool,
    pub fin: bool,
    pub seq: u32,
}

/// What the header decoder reads out of an IPv4 packet that carries TCP.
#[derive(Clone, Copy, Debug, PartialEq, Eq)]
pub struct TcpIpv4Headers {
    pub source: [u8; 4],
    pub destination: [u8; 4],
    /// Length of the IPv4 header, in 32-bit words.
    pub ihl: u8,
    pub source_port: u16,
    pub destination_port: u16,
    /// Length of the TCP header, in 32-bit words.
    pub data_offset: u8,
    pub flags: TcpMeta,
}

/// A classified frame: one TCP segment over IPv4, seen on the loopback device.
#[derive(Clone, Copy, Debug, PartialEq, Eq)]
pub struct TcpData {
    pub src: Addr,
    pub dest: Addr,
    /// Offset of the TCP payload in the frame, link header included.
    pub data_offset: usize,
    pub flags: TcpMeta,
    /// Capture time, in nanoseconds since the Unix epoch.
    pub ts: u64,
}

/// The headers that `etherparse::SlicedPacket::from_ip` finds in `data`, when
/// it accepts `data` as an IPv4 packet whose transport header is TCP.
pub uninterp spec fn sliced_tcp_ipv4(data: Seq<u8>) -> Option<TcpIpv4Headers>;

/// Calls `etherparse::SlicedPacket::from_ip` on `data` and copies the fields
/// of the IPv4 and TCP header slices. The result is `None` where the call
/// fails, where the packet is not IPv4, or where no TCP header was sliced
/// (another protocol, or a fragmented payload). It is a function of the bytes
/// alone, which the contract names; nothing more is claimed of it.
#[verifier::external_body]
fn slice_tcp_ipv4(data: &[u8]) -> (r: Option<TcpIpv4Headers>)
    ensures
        r == sliced_tcp_ipv4(data@),
{
    let p = SlicedPacket::from_ip(data).ok()?;
    match (p.ip, p.transport) {
        (Some(InternetSlice::Ipv4(ip, _)), Some(TransportSlice::Tcp(t))) => Some(TcpIpv4Headers {
            source: ip.source(), destination: ip.destination(), ihl: ip.ihl(),
            source_port: t.source_port(), destination_port: t.destination_port(),
            data_offset: t.data_offset(),
            flags: TcpMeta {
                ns: t.ns(), cwr: t.cwr(), ece: t.ece(), urg: t.urg(), ack: t.ack(),
                psh: t.psh(), rst: t.rst(), syn: t.syn(), fin: t.fin(), seq: t.sequence_number(),
            },
        }),
        _ => None,
    }
}

/// Offset of the TCP payload in a frame with the headers `h`: the link
/// header, then the IPv4 header, then the TCP header.
pub open spec fn payload_offset(h: TcpIpv4Headers) -> int {
    LINK_HEADER_LEN + 4 * h.ihl + 4 * h.data_offset
}

/// The classified frame for the headers `h`, captured at `ts` with `caplen`
/// bytes: none where the payload would start beyond the captured bytes.
pub open spec fn classified(h: TcpIpv4Headers, caplen: u32, ts: u64) -> Option<TcpData> {
    if payload_offset(h) <= caplen {
        Some(
            TcpData {
                src: Addr { ip: h.source, port: h.source_port },
                dest: Addr { ip: h.destination, port: h.destination_port },
                data_offset: payload_offset(h) as usize,
                flags: h.flags,
                ts,
            },
        )
    } else {
        None
    }
}

/// What `parse_tcp` returns for the frame bytes `data`.
pub open spec fn parsed_tcp(data: Seq<u8>, caplen: u32, ts: u64) -> Option<TcpData> {
    if caplen < MIN_FRAME_LEN || data.len() < LINK_HEADER_LEN {
        None
    } else {
        match sliced_tcp_ipv4(data.skip(LINK_HEADER_LEN as int)) {
            Some(h) => classified(h, caplen, ts),
            None => None,
        }
    }
}

impl TcpData {
    /// Builds the classified frame from decoded headers, or drops the frame
    /// where its payload offset exceeds the captured length.
    pub fn from_headers(h: &TcpIpv4Headers, caplen: u32, ts: u64) -> (r: Option<TcpData>)
        ensures
            r == classified(*h, caplen, ts),
            r is Some <==> payload_offset(*h) <= caplen,
    {
        let data_offset: usize = LINK_HEADER_LEN + 4 * (h.ihl as usize) + 4 * (h.data_offset as usize);
        if data_offset <= caplen as usize {
            Some(
                TcpData {
                    src: Addr { ip: h.source, port: h.source_port },
                    dest: Addr { ip: h.destination, port: h.destination_port },
                    data_offset,
                    flags: h.flags,
                    ts,
                },
            )
        } else {
            None
        }
    }
}

/// Classifies a frame captured on a loopback device: `data` holds the captured
/// bytes, `caplen` their number as the capture reports it, `ts` the capture
/// time. Frames that are too short, not IPv4, not TCP, or whose headers reach
/// beyond the captured bytes give `None`.
pub fn parse_tcp(data: &[u8], caplen: u32, ts: u64) -> (r: Option<TcpData>)
    ensures
        r == parsed_tcp(data@, caplen, ts),
        r matches Some(frame) ==> LINK_HEADER_LEN <= frame.data_offset <= caplen && frame.ts == ts,
{
    if caplen < MIN_FRAME_LEN || data.len() < LINK_HEADER_LEN {
        return None;
    }
    let ipv4data = slice_subrange(data, LINK_HEADER_LEN, data.len());
    match slice_tcp_ipv4(ipv4data) {
        Some(h) => TcpData::from_headers(&h, caplen, ts),
        None => None,
    }
}

} // verus!
