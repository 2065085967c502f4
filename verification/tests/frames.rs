use etherparse::PacketBuilder;
use net_traffic_capture::capture::{
    get_loopback_device, ignore_timeouts, to_epoch_nanos, CaptureFailure, DeviceFlags,
};
use net_traffic_capture::frame::{parse_tcp, Addr, TcpData, TcpIpv4Headers, TcpMeta};

fn loopback_frame(source_port: u16, destination_port: u16, seq: u32, payload: &[u8]) -> Vec<u8> {
    let builder = PacketBuilder::ipv4([127, 0, 0, 1], [127, 0, 0, 2], 64)
        .tcp(source_port, destination_port, seq, 1024)
        .psh()
        .ack(7);
    let mut frame = vec![2u8, 0, 0, 0];
    builder.write(&mut frame, payload).unwrap();
    frame
}

fn no_flags(seq: u32) -> TcpMeta {
    TcpMeta {
        ns: false,
        cwr: false,
        ece: false,
        urg: false,
        ack: false,
        psh: false,
        rst: false,
        syn: false,
        fin: false,
        seq,
    }
}

#[test]
fn parse_reads_addresses_ports_flags_and_offset() {
    let frame = loopback_frame(50123, 9009, 4242, b"hello");
    let parsed = parse_tcp(&frame, frame.len() as u32, 1_700_000_000_000_000_000).unwrap();
    assert_eq!(
        parsed,
        TcpData {
            src: Addr { ip: [127, 0, 0, 1], port: 50123 },
            dest: Addr { ip: [127, 0, 0, 2], port: 9009 },
            data_offset: 44,
            flags: TcpMeta { ack: true, psh: true, ..no_flags(4242) },
            ts: 1_700_000_000_000_000_000,
        }
    );
    assert_eq!(&frame[parsed.data_offset..], b"hello");
}

#[test]
fn parse_reads_the_tcp_header_length_from_the_header() {
    let builder = PacketBuilder::ipv4([10, 0, 0, 1], [10, 0, 0, 2], 64)
        .tcp(1, 2, 3, 4)
        .syn()
        .options_raw(&[1, 1, 1, 1, 1, 1, 1, 1])
        .unwrap();
    let mut frame = vec![2u8, 0, 0, 0];
    builder.write(&mut frame, b"xy").unwrap();
    let parsed = parse_tcp(&frame, frame.len() as u32, 5).unwrap();
    assert_eq!(parsed.data_offset, 4 + 20 + 28);
    assert!(parsed.flags.syn);
    assert_eq!(&frame[parsed.data_offset..], b"xy");
}

#[test]
fn parse_rejects_frames_captured_too_short() {
    let frame = loopback_frame(1, 9009, 0, b"payload");
    assert_eq!(parse_tcp(&frame, 31, 0), None);
    assert!(parse_tcp(&frame, 32, 0).is_none());
    assert_eq!(parse_tcp(&frame[..3], 40, 0), None);
    assert_eq!(parse_tcp(&[], 0, 0), None);
}

#[test]
fn parse_rejects_a_frame_whose_payload_offset_exceeds_the_captured_length() {
    let frame = loopback_frame(50123, 9009, 1, b"0123456789");
    assert_eq!(parse_tcp(&frame, 43, 9), None);
    assert!(parse_tcp(&frame, 44, 9).is_some());
}

#[test]
fn parse_rejects_udp() {
    let builder = PacketBuilder::ipv4([127, 0, 0, 1], [127, 0, 0, 1], 64).udp(50123, 9009);
    let mut frame = vec![2u8, 0, 0, 0];
    builder.write(&mut frame, &[0u8; 32]).unwrap();
    assert_eq!(parse_tcp(&frame, frame.len() as u32, 0), None);
}

#[test]
fn parse_rejects_ipv6() {
    let builder = PacketBuilder::ipv6([1; 16], [2; 16], 64).tcp(50123, 9009, 0, 1024);
    let mut frame = vec![30u8, 0, 0, 0];
    builder.write(&mut frame, b"data").unwrap();
    assert_eq!(parse_tcp(&frame, frame.len() as u32, 0), None);
}

#[test]
fn parse_rejects_bytes_that_are_no_ip_packet() {
    let frame = vec![0xffu8; 64];
    assert_eq!(parse_tcp(&frame, 64, 0), None);
    let truncated = &loopback_frame(1, 2, 3, b"")[..30];
    assert_eq!(parse_tcp(truncated, 32, 0), None);
}

#[test]
fn parse_rejects_a_fragmented_packet() {
    let mut frame = loopback_frame(50123, 9009, 1, b"0123456789");
    frame[4 + 6] |= 0x20;
    assert_eq!(parse_tcp(&frame, frame.len() as u32, 0), None);
}

#[test]
fn classified_frame_is_built_from_headers() {
    let headers = TcpIpv4Headers {
        source: [1, 2, 3, 4],
        destination: [5, 6, 7, 8],
        ihl: 6,
        source_port: 10,
        destination_port: 20,
        data_offset: 7,
        flags: no_flags(9),
    };
    let frame = TcpData::from_headers(&headers, 56, 77).unwrap();
    assert_eq!(frame.data_offset, 4 + 24 + 28);
    assert_eq!(frame.src, Addr { ip: [1, 2, 3, 4], port: 10 });
    assert_eq!(frame.dest, Addr { ip: [5, 6, 7, 8], port: 20 });
    assert_eq!(frame.ts, 77);
    assert_eq!(TcpData::from_headers(&headers, 55, 77), None);
}

#[test]
fn capture_time_is_seconds_and_microseconds_in_nanoseconds() {
    assert_eq!(to_epoch_nanos(0, 0), Some(0));
    assert_eq!(to_epoch_nanos(1, 1), Some(1_000_001_000));
    assert_eq!(to_epoch_nanos(1_700_000_000, 999_999), Some(1_700_000_000_999_999_000));
    assert_eq!(to_epoch_nanos(-1, 0), None);
    assert_eq!(to_epoch_nanos(0, -1), None);
    assert_eq!(to_epoch_nanos(18_446_744_073, 709_551), Some(18_446_744_073_709_551_000));
    assert_eq!(to_epoch_nanos(18_446_744_073, 709_552), None);
    assert_eq!(to_epoch_nanos(i64::MAX, 0), None);
}

#[test]
fn loopback_device_is_the_first_that_is_up_running_and_loopback() {
    let down = DeviceFlags { up: false, running: true, loopback: true };
    let idle = DeviceFlags { up: true, running: false, loopback: true };
    let wired = DeviceFlags { up: true, running: true, loopback: false };
    let lo = DeviceFlags { up: true, running: true, loopback: true };
    assert_eq!(get_loopback_device(&[down, idle, wired, lo, lo]), Some(3));
    assert_eq!(get_loopback_device(&[lo]), Some(0));
    assert_eq!(get_loopback_device(&[down, idle, wired]), None);
    assert_eq!(get_loopback_device(&[]), None);
    assert!(lo.is_loopback());
    assert!(!wired.is_loopback());
}

#[test]
fn timeouts_are_no_frame_and_other_failures_stay() {
    let frame: Result<u8, CaptureFailure<String>> = Ok(7);
    assert_eq!(ignore_timeouts(frame), Ok(Some(7)));
    let timeout: Result<u8, CaptureFailure<String>> = Err(CaptureFailure::TimeoutExpired);
    assert_eq!(ignore_timeouts(timeout), Ok(None));
    let failure: Result<u8, CaptureFailure<String>> =
        Err(CaptureFailure::Other("device gone".to_string()));
    assert_eq!(ignore_timeouts(failure), Err("device gone".to_string()));
}
