use etherparse::PacketBuilder;
use net_traffic_capture::dispatch::dispatch;
use net_traffic_capture::frame::parse_tcp;
use net_traffic_capture::image::MemoryDir;
use net_traffic_capture::ops::FileRole;
use net_traffic_capture::writer::{Record, Writer};
use std::collections::HashSet;

fn frame_to(destination_port: u16, payload_len: usize) -> Vec<u8> {
    let builder =
        PacketBuilder::ipv4([127, 0, 0, 1], [127, 0, 0, 1], 64).tcp(50123, destination_port, 1, 512);
    let mut frame = vec![2u8, 0, 0, 0];
    builder.write(&mut frame, &vec![b'x'; payload_len]).unwrap();
    frame
}

fn observe(frame: &[u8], ts: u64, ports: &HashSet<u16>) -> Option<Record> {
    let classified = parse_tcp(frame, frame.len() as u32, ts)?;
    dispatch(&classified, frame.len() as u32, frame, ports, 0).record
}

#[test]
fn three_frames_of_which_one_is_empty_give_two_rows() {
    let ports: HashSet<u16> = [9009u16].into_iter().collect();
    let (t1, t2, t3) = (1_000_000_001u64, 1_000_000_002u64, 1_000_000_003u64);
    let mut records = Vec::new();
    for (len, ts) in [(10usize, t1), (0, t2), (25, t3)] {
        if let Some(record) = observe(&frame_to(9009, len), ts, &ports) {
            records.push(record);
        }
    }
    assert_eq!(
        records,
        vec![Record { port: 9009, ts: t1, val: 10 }, Record { port: 9009, ts: t3, val: 25 }]
    );
    let mut writer = Writer::new().unwrap();
    let (ops, error) = writer.run(&records);
    assert_eq!(error, None);
    let mut dir = MemoryDir::new();
    assert_eq!(dir.apply_all(&ops), ops.len());
    assert_eq!(dir.count(9009), 2);
    assert_eq!(dir.rows(9009), Some(vec![(t1, 10), (t3, 25)]));
    assert_eq!(dir.file(9009, FileRole::Count).unwrap(), &vec![2, 0, 0, 0, 0, 0, 0, 0]);
    let ts_file = dir.file(9009, FileRole::Timestamps).unwrap();
    assert_eq!(&ts_file[..8], &t1.to_le_bytes());
    assert_eq!(&ts_file[8..16], &t3.to_le_bytes());
    let val_file = dir.file(9009, FileRole::Values).unwrap();
    assert_eq!(&val_file[..8], &10u64.to_le_bytes());
    assert_eq!(&val_file[8..16], &25u64.to_le_bytes());
}

#[test]
fn a_frame_captured_shorter_than_its_headers_is_dropped() {
    let ports: HashSet<u16> = [9009u16].into_iter().collect();
    let frame = frame_to(9009, 20);
    assert_eq!(parse_tcp(&frame, 40, 5), None);
    let mut records = Vec::new();
    if let Some(classified) = parse_tcp(&frame, 40, 5) {
        if let Some(record) = dispatch(&classified, 40, &frame, &ports, 0).record {
            records.push(record);
        }
    }
    assert!(records.is_empty());
    let mut writer = Writer::with_increment(64).unwrap();
    let (ops, error) = writer.run(&records);
    assert_eq!((ops.len(), error), (0, None));
    assert_eq!(observe(&frame, 6, &ports), Some(Record { port: 9009, ts: 6, val: 20 }));
}

#[test]
fn frames_to_other_ports_leave_no_files() {
    let ports: HashSet<u16> = [9009u16].into_iter().collect();
    assert_eq!(observe(&frame_to(8080, 100), 1, &ports), None);
    assert_eq!(observe(&frame_to(9009, 0), 1, &ports), None);
    let mut writer = Writer::with_increment(64).unwrap();
    let (ops, _) = writer.run(&[]);
    let mut dir = MemoryDir::new();
    assert_eq!(dir.apply_all(&ops), 0);
    assert_eq!(dir.file(9009, FileRole::Count), None);
    assert_eq!(dir.rows(9009), Some(vec![]));
}
