//! The diagnostic text that is shown for a classified frame.

use crate::frame::{Addr, TcpData, TcpMeta};
use crate::literal_bytes::{literal_text, LiteralBytes};
use crate::text::{decimal, push_char, push_decimal, push_str};
use vstd::prelude::*;

verus! {

/// `label` and a space where the flag is set, nothing where it is not.
pub open spec fn flag_text(is_set: bool, label: Seq<char>) -> Seq<char> {
    if is_set {
        label + seq![' ']
    } else {
        Seq::empty()
    }
}

/// The labels of the control bits that are set, in header order, each
/// followed by a space, then the sequence number in square brackets.
pub open spec fn meta_text(m: TcpMeta) -> Seq<char> {
    flag_text(m.ns, "NS"@) + flag_text(m.cwr, "CWR"@) + flag_text(m.ece, "ECE"@) + flag_text(
        m.urg,
        "URG"@,
    ) + flag_text(m.ack, "ACK"@) + flag_text(m.psh, "PSH"@) + flag_text(m.rst, "RST"@)
        + flag_text(m.syn, "SYN"@) + flag_text(m.fin, "FIN"@) + seq!['['] + decimal(m.seq as nat)
        + seq![']']
}

/// An IPv4 address in dotted decimal notation.
pub open spec fn ip_text(ip: Seq<u8>) -> Seq<char>
    recommends
        ip.len() == 4,
{
    decimal(ip[0] as nat) + seq!['.'] + decimal(ip[1] as nat) + seq!['.'] + decimal(ip[2] as nat)
        + seq!['.'] + decimal(ip[3] as nat)
}

/// An address and port, as `ip:port`.
pub open spec fn addr_text(a: Addr) -> Seq<char> {
    ip_text(a.ip@) + seq![':'] + decimal(a.port as nat)
}

/// The direction and the two endpoints of a frame: `recv [src -> dest]`.
pub open spec fn route_text(t: TcpData, is_recv: bool) -> Seq<char> {
    (if is_recv {
        "recv"@
    } else {
        "sent"@
    }) + " ["@ + addr_text(t.src) + " -> "@ + addr_text(t.dest) + "]"@
}

/// The line that shows a frame with its payload length and payload bytes.
pub open spec fn data_line(t: TcpData, data_len: u64, data_part: Seq<u8>, is_recv: bool) -> Seq<
    char,
> {
    route_text(t, is_recv) + " "@ + decimal(data_len as nat) + ": "@ + literal_text(data_part)
        + "\n"@
}

/// The line that shows the flags of a frame under its data line.
pub open spec fn flags_line(t: TcpData) -> Seq<char> {
    "     flags: "@ + meta_text(t.flags) + "\n"@
}

/// The line that shows a frame without payload.
pub open spec fn empty_line(t: TcpData, is_recv: bool) -> Seq<char> {
    route_text(t, is_recv) + " flags: "@ + meta_text(t.flags) + "\n"@
}

/// The text shown for a frame. Sent frames are shown only at verbosity 4 and
/// above. A frame with payload gives a dot at verbosity 1, its data line from
/// verbosity 2 on and its flags line from verbosity 3 on; a frame without
/// payload gives one line, from verbosity 3 on.
pub open spec fn tcp_text(
    t: TcpData,
    data_len: u64,
    data_part: Seq<u8>,
    is_recv: bool,
    verbosity: u8,
) -> Seq<char> {
    if !is_recv && verbosity < 4 {
        Seq::empty()
    } else if data_len > 0 {
        (if verbosity == 1 {
            "."@
        } else {
            Seq::empty()
        }) + (if verbosity >= 2 {
            data_line(t, data_len, data_part, is_recv)
        } else {
            Seq::empty()
        }) + (if verbosity >= 3 {
            flags_line(t)
        } else {
            Seq::empty()
        })
    } else if verbosity >= 3 {
        empty_line(t, is_recv)
    } else {
        Seq::empty()
    }
}

fn push_flag(out: &mut String, is_set: bool, label: &str)
    ensures
        final(out)@ == old(out)@ + flag_text(is_set, label@),
{
    if is_set {
        let mut text = String::new();
        push_str(&mut text, label);
        push_char(&mut text, ' ');
        assert(text@ == flag_text(is_set, label@));
        push_str(out, text.as_str());
    } else {
        assert(out@ + Seq::<char>::empty() == out@);
    }
}

impl TcpMeta {
    /// The flags that are set and the sequence number, as text.
    pub fn debug_string(&self) -> (r: String)
        ensures
            r@ == meta_text(*self),
    {
        let mut out = String::new();
        push_flag(&mut out, self.ns, "NS");
        assert(out@ == flag_text(self.ns, "NS"@));
        push_flag(&mut out, self.cwr, "CWR");
        push_flag(&mut out, self.ece, "ECE");
        push_flag(&mut out, self.urg, "URG");
        push_flag(&mut out, self.ack, "ACK");
        push_flag(&mut out, self.psh, "PSH");
        push_flag(&mut out, self.rst, "RST");
        push_flag(&mut out, self.syn, "SYN");
        push_flag(&mut out, self.fin, "FIN");
        push_char(&mut out, '[');
        push_decimal(&mut out, self.seq as u64);
        push_char(&mut out, ']');
        out
    }
}

impl Addr {
    /// The address as `ip:port`, the IP address in dotted decimal notation.
    pub fn to_string(&self) -> (r: String)
        ensures
            r@ == addr_text(*self),
    {
        let mut out = String::new();
        push_decimal(&mut out, self.ip[0] as u64);
        assert(out@ == decimal(self.ip@[0] as nat));
        push_char(&mut out, '.');
        push_decimal(&mut out, self.ip[1] as u64);
        push_char(&mut out, '.');
        push_decimal(&mut out, self.ip[2] as u64);
        push_char(&mut out, '.');
        push_decimal(&mut out, self.ip[3] as u64);
        push_char(&mut out, ':');
        push_decimal(&mut out, self.port as u64);
        out
    }
}

fn route_string(t: &TcpData, is_recv: bool) -> (r: String)
    ensures
        r@ == route_text(*t, is_recv),
{
    let mut out = String::new();
    if is_recv {
        push_str(&mut out, "recv");
        assert(out@ == "recv"@);
    } else {
        push_str(&mut out, "sent");
        assert(out@ == "sent"@);
    }
    push_str(&mut out, " [");
    push_str(&mut out, t.src.to_string().as_str());
    push_str(&mut out, " -> ");
    push_str(&mut out, t.dest.to_string().as_str());
    push_str(&mut out, "]");
    out
}

fn data_line_string(t: &TcpData, data_len: u64, data_part: &[u8], is_recv: bool) -> (r: String)
    ensures
        r@ == data_line(*t, data_len, data_part@, is_recv),
{
    let mut out = route_string(t, is_recv);
    push_str(&mut out, " ");
    push_decimal(&mut out, data_len);
    push_str(&mut out, ": ");
    push_str(&mut out, LiteralBytes(data_part).to_string().as_str());
    push_str(&mut out, "\n");
    out
}

fn flags_line_string(t: &TcpData) -> (r: String)
    ensures
        r@ == flags_line(*t),
{
    let mut out = String::new();
    push_str(&mut out, "     flags: ");
    assert(out@ == "     flags: "@);
    push_str(&mut out, t.flags.debug_string().as_str());
    push_str(&mut out, "\n");
    out
}

fn empty_line_string(t: &TcpData, is_recv: bool) -> (r: String)
    ensures
        r@ == empty_line(*t, is_recv),
{
    let mut out = route_string(t, is_recv);
    push_str(&mut out, " flags: ");
    push_str(&mut out, t.flags.debug_string().as_str());
    push_str(&mut out, "\n");
    out
}

/// The text to show for the frame `tcp_data`, whose payload has `data_len`
/// bytes of which `data_part` were captured.
pub fn format_tcp(
    tcp_data: &TcpData,
    data_len: u64,
    data_part: &[u8],
    is_recv: bool,
    verbosity: u8,
) -> (r: String)
    ensures
        r@ == tcp_text(*tcp_data, data_len, data_part@, is_recv, verbosity),
{
    if !is_recv && verbosity < 4 {
        return String::new();
    }
    if data_len > 0 {
        let mut out = String::new();
        if verbosity == 1 {
            push_str(&mut out, ".");
        }
        assert(out@ == if verbosity == 1 {
            "."@
        } else {
            Seq::<char>::empty()
        });
        if verbosity >= 2 {
            push_str(&mut out, data_line_string(tcp_data, data_len, data_part, is_recv).as_str());
        } else {
            assert(out@ + Seq::<char>::empty() == out@);
        }
        if verbosity >= 3 {
            push_str(&mut out, flags_line_string(tcp_data).as_str());
        } else {
            assert(out@ + Seq::<char>::empty() == out@);
        }
        out
    } else if verbosity >= 3 {
        empty_line_string(tcp_data, is_recv)
    } else {
        String::new()
    }
}

} // verus!
