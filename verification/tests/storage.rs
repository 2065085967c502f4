use net_traffic_capture::column::{CountWriter, U64ColWriter};
use net_traffic_capture::image::MemoryDir;
use net_traffic_capture::ops::{file_name, FileAction, FileOp, FileRole, StorageError};
use net_traffic_capture::writer::{increment, increment_for, DatapointWriter, Record, Writer};

fn create(port: u16, role: FileRole, size: u64) -> FileOp {
    FileOp { port, role, action: FileAction::Create { size } }
}

fn resize(port: u16, role: FileRole, size: u64) -> FileOp {
    FileOp { port, role, action: FileAction::Resize { size } }
}

fn write(port: u16, role: FileRole, offset: u64, val: u64) -> FileOp {
    FileOp { port, role, action: FileAction::Write { offset, bytes: val.to_le_bytes() } }
}

fn store(writer: &mut Writer, dir: &mut MemoryDir, port: u16, ts: u64, val: u64) {
    let ops = writer.append(port, ts, val).unwrap();
    assert_eq!(dir.apply_all(&ops), ops.len());
}

#[test]
fn operations_are_built_with_little_endian_bytes() {
    assert_eq!(FileOp::create(1, FileRole::Count, 8), create(1, FileRole::Count, 8));
    assert_eq!(FileOp::resize(2, FileRole::Values, 128), resize(2, FileRole::Values, 128));
    assert_eq!(
        FileOp::write(3, FileRole::Timestamps, 16, 0x0102030405060708),
        FileOp {
            port: 3,
            role: FileRole::Timestamps,
            action: FileAction::Write { offset: 16, bytes: [8, 7, 6, 5, 4, 3, 2, 1] },
        }
    );
}

#[test]
fn files_are_named_by_port_and_role() {
    assert_eq!(file_name(9009, FileRole::Timestamps), "9009.ts");
    assert_eq!(file_name(9009, FileRole::Values), "9009.val");
    assert_eq!(file_name(9009, FileRole::Count), "9009.count");
    assert_eq!(file_name(0, FileRole::Count), "0.count");
    assert_eq!(file_name(65535, FileRole::Timestamps), "65535.ts");
    assert_eq!(FileRole::Values.extension(), "val");
}

#[test]
fn increment_is_four_pages() {
    assert_eq!(increment_for(4096), Some(16384));
    assert_eq!(increment_for(0), Some(0));
    assert_eq!(increment_for(1), Some(4));
    assert_eq!(increment_for(usize::MAX), (usize::MAX as u64).checked_mul(4));
    assert_eq!(increment(), increment_for(page_size::get()));
}

#[test]
fn column_grows_by_one_increment_when_it_is_full() {
    let (mut col, op) = U64ColWriter::new(7, FileRole::Values, 32).unwrap();
    assert_eq!(op, create(7, FileRole::Values, 32));
    assert_eq!((col.len(), col.cap()), (0, 32));
    assert_eq!(col.may_resize(), Ok(None));
    assert_eq!(col.append(10).unwrap(), vec![write(7, FileRole::Values, 0, 10)]);
    assert_eq!(col.append(11).unwrap(), vec![write(7, FileRole::Values, 8, 11)]);
    assert_eq!(col.append(12).unwrap(), vec![write(7, FileRole::Values, 16, 12)]);
    assert_eq!((col.len(), col.cap()), (24, 32));
    assert_eq!(
        col.append(13).unwrap(),
        vec![resize(7, FileRole::Values, 64), write(7, FileRole::Values, 24, 13)]
    );
    assert_eq!((col.len(), col.cap()), (32, 64));
    assert_eq!(col.may_resize(), Ok(None));
}

#[test]
fn column_refuses_an_increment_smaller_than_a_value() {
    assert_eq!(
        U64ColWriter::new(1, FileRole::Values, 7).map(|made| made.1),
        Err(StorageError::InvalidIncrement)
    );
    assert_eq!(
        U64ColWriter::new(1, FileRole::Values, 0).map(|made| made.1),
        Err(StorageError::InvalidIncrement)
    );
    assert!(U64ColWriter::new(1, FileRole::Values, 8).is_ok());
    assert_eq!(Writer::with_increment(7).err(), Some(StorageError::InvalidIncrement));
    assert_eq!(DatapointWriter::new(1, 3).err(), Some(StorageError::InvalidIncrement));
}

#[test]
fn column_of_the_smallest_increment_grows_for_every_value() {
    let (mut col, _) = U64ColWriter::new(1, FileRole::Timestamps, 8).unwrap();
    assert_eq!(
        col.append(5).unwrap(),
        vec![resize(1, FileRole::Timestamps, 16), write(1, FileRole::Timestamps, 0, 5)]
    );
    assert_eq!(
        col.append(6).unwrap(),
        vec![resize(1, FileRole::Timestamps, 24), write(1, FileRole::Timestamps, 8, 6)]
    );
}

#[test]
fn column_of_the_largest_increment_takes_rows_without_growing() {
    let (mut col, op) = U64ColWriter::new(1, FileRole::Values, u64::MAX).unwrap();
    assert_eq!(op, create(1, FileRole::Values, u64::MAX));
    assert_eq!(col.may_resize(), Ok(None));
    assert_eq!(col.append(1).unwrap(), vec![write(1, FileRole::Values, 0, 1)]);
    assert_eq!(col.append(2).unwrap(), vec![write(1, FileRole::Values, 8, 2)]);
    assert_eq!((col.len(), col.cap()), (16, u64::MAX));
}

#[test]
fn count_can_be_set_and_raised_up_to_the_largest_number() {
    let mut count = CountWriter::new(4).0;
    assert_eq!(count.set(u64::MAX - 1), write(4, FileRole::Count, 0, u64::MAX - 1));
    assert_eq!(count.increment(), write(4, FileRole::Count, 0, u64::MAX));
    assert_eq!(count.get(), u64::MAX);
}

#[test]
fn count_starts_at_zero_and_rises_by_one() {
    let (mut count, ops) = CountWriter::new(9009);
    assert_eq!(ops, vec![create(9009, FileRole::Count, 8), write(9009, FileRole::Count, 0, 0)]);
    assert_eq!(count.get(), 0);
    assert_eq!(count.increment(), write(9009, FileRole::Count, 0, 1));
    assert_eq!(count.increment(), write(9009, FileRole::Count, 0, 2));
    assert_eq!(count.get(), 2);
    assert_eq!(count.set(40), write(9009, FileRole::Count, 0, 40));
    assert_eq!(count.get(), 40);
}

#[test]
fn first_row_of_a_port_creates_its_files_then_writes_in_order() {
    let mut writer = Writer::with_increment(64).unwrap();
    let ops = writer.append(9009, 111, 10).unwrap();
    assert_eq!(
        ops,
        vec![
            create(9009, FileRole::Timestamps, 64),
            create(9009, FileRole::Values, 64),
            create(9009, FileRole::Count, 8),
            write(9009, FileRole::Count, 0, 0),
            write(9009, FileRole::Timestamps, 0, 111),
            write(9009, FileRole::Values, 0, 10),
            write(9009, FileRole::Count, 0, 1),
        ]
    );
    let ops = writer.append(9009, 222, 20).unwrap();
    assert_eq!(
        ops,
        vec![
            write(9009, FileRole::Timestamps, 8, 222),
            write(9009, FileRole::Values, 8, 20),
            write(9009, FileRole::Count, 0, 2),
        ]
    );
}

#[test]
fn rows_are_read_back_in_append_order() {
    let mut writer = Writer::with_increment(4096).unwrap();
    let mut dir = MemoryDir::new();
    let rows: Vec<(u64, u64)> = (0..200u64).map(|i| (1_000 + 3 * i, 7 * i + 1)).collect();
    for (ts, val) in rows.iter() {
        store(&mut writer, &mut dir, 9009, *ts, *val);
    }
    assert_eq!(dir.count(9009), 200);
    assert_eq!(dir.rows(9009), Some(rows.clone()));
    assert_eq!(dir.read_at(9009, 0), Some(rows[0]));
    assert_eq!(dir.read_at(9009, 199), Some(rows[199]));
    assert_eq!(dir.read_at(9009, 200), None);
}

#[test]
fn growth_keeps_rows_written_before_byte_for_byte() {
    let mut writer = Writer::with_increment(64).unwrap();
    let mut dir = MemoryDir::new();
    let mut rows = Vec::new();
    for i in 0..100u64 {
        let before_ts = dir.file(9009, FileRole::Timestamps).cloned().unwrap_or_default();
        let before_val = dir.file(9009, FileRole::Values).cloned().unwrap_or_default();
        store(&mut writer, &mut dir, 9009, u64::MAX - i, i * i);
        rows.push((u64::MAX - i, i * i));
        let written = 8 * i as usize;
        let ts = dir.file(9009, FileRole::Timestamps).unwrap();
        let val = dir.file(9009, FileRole::Values).unwrap();
        assert_eq!(&ts[..written], &before_ts[..written]);
        assert_eq!(&val[..written], &before_val[..written]);
        assert_eq!(ts.len() % 64, 0);
        assert_eq!(ts.len(), val.len());
        assert!(ts.len() > written + 8);
        assert!(ts.len() <= written + 8 + 64);
        assert_eq!(dir.rows(9009), Some(rows.clone()));
    }
    assert_eq!(dir.file(9009, FileRole::Timestamps).unwrap().len(), 832);
    assert_eq!(dir.file(9009, FileRole::Count).unwrap(), &100u64.to_le_bytes().to_vec());
}

#[test]
fn column_files_hold_little_endian_values() {
    let mut writer = Writer::with_increment(16).unwrap();
    let mut dir = MemoryDir::new();
    store(&mut writer, &mut dir, 80, 0x1122334455667788, 258);
    let ts = dir.file(80, FileRole::Timestamps).unwrap();
    assert_eq!(&ts[..8], &[0x88, 0x77, 0x66, 0x55, 0x44, 0x33, 0x22, 0x11]);
    assert_eq!(&ts[8..], &[0u8; 8]);
    let val = dir.file(80, FileRole::Values).unwrap();
    assert_eq!(&val[..8], &[2, 1, 0, 0, 0, 0, 0, 0]);
    assert_eq!(dir.file(80, FileRole::Count).unwrap(), &vec![1, 0, 0, 0, 0, 0, 0, 0]);
}

#[test]
fn work_cut_short_before_the_count_leaves_count_and_rows_as_they_were() {
    let mut writer = Writer::with_increment(24).unwrap();
    let mut dir = MemoryDir::new();
    store(&mut writer, &mut dir, 9009, 1, 10);
    store(&mut writer, &mut dir, 9009, 2, 20);
    let ops = writer.append(9009, 3, 30).unwrap();
    assert_eq!(ops.len(), 5);
    for done in 0..ops.len() {
        let mut crashed = MemoryDir::new();
        let mut replay = Writer::with_increment(24).unwrap();
        store(&mut replay, &mut crashed, 9009, 1, 10);
        store(&mut replay, &mut crashed, 9009, 2, 20);
        assert_eq!(crashed.apply_all(&ops[..done]), done);
        assert_eq!(crashed.count(9009), 2);
        assert_eq!(crashed.rows(9009), Some(vec![(1, 10), (2, 20)]));
    }
    assert_eq!(dir.apply_all(&ops), 5);
    assert_eq!(dir.rows(9009), Some(vec![(1, 10), (2, 20), (3, 30)]));
}

#[test]
fn work_cut_short_on_the_first_row_of_a_port_leaves_no_row() {
    let mut writer = Writer::with_increment(8).unwrap();
    let ops = writer.append(5, 1, 10).unwrap();
    assert_eq!(ops.len(), 9);
    for done in 0..ops.len() {
        let mut crashed = MemoryDir::new();
        assert_eq!(crashed.apply_all(&ops[..done]), done);
        assert_eq!(crashed.count(5), 0);
        assert_eq!(crashed.rows(5), Some(vec![]));
    }
}

#[test]
fn a_count_beyond_the_columns_is_not_read_as_rows() {
    let mut dir = MemoryDir::new();
    assert!(dir.apply(&create(1, FileRole::Timestamps, 16)));
    assert!(dir.apply(&create(1, FileRole::Values, 8)));
    assert!(dir.apply(&create(1, FileRole::Count, 8)));
    assert!(dir.apply(&write(1, FileRole::Count, 0, 2)));
    assert_eq!(dir.count(1), 2);
    assert_eq!(dir.read_at(1, 0), Some((0, 0)));
    assert_eq!(dir.read_at(1, 1), None);
    assert_eq!(dir.rows(1), None);
}

#[test]
fn operations_on_missing_files_or_outside_them_change_nothing() {
    let mut dir = MemoryDir::new();
    assert!(!dir.apply(&resize(1, FileRole::Values, 64)));
    assert!(!dir.apply(&write(1, FileRole::Values, 0, 1)));
    assert_eq!(dir.file(1, FileRole::Values), None);
    assert!(dir.apply(&create(1, FileRole::Values, 12)));
    assert!(!dir.apply(&write(1, FileRole::Values, 8, 1)));
    assert!(dir.apply(&write(1, FileRole::Values, 4, 0xffff_ffff_ffff_ffff)));
    assert_eq!(
        dir.file(1, FileRole::Values).unwrap(),
        &vec![0, 0, 0, 0, 255, 255, 255, 255, 255, 255, 255, 255]
    );
    assert!(dir.apply(&resize(1, FileRole::Values, 6)));
    assert_eq!(dir.file(1, FileRole::Values).unwrap(), &vec![0, 0, 0, 0, 255, 255]);
    assert!(dir.apply(&resize(1, FileRole::Values, 8)));
    assert_eq!(dir.file(1, FileRole::Values).unwrap(), &vec![0, 0, 0, 0, 255, 255, 0, 0]);
    assert!(dir.apply(&create(1, FileRole::Values, 2)));
    assert_eq!(dir.file(1, FileRole::Values).unwrap(), &vec![0, 0]);
    assert_eq!(dir.file(1, FileRole::Timestamps), None);
    assert_eq!(dir.file(2, FileRole::Values), None);
    let ops = [create(3, FileRole::Count, 8), write(3, FileRole::Count, 8, 1), create(4, FileRole::Count, 8)];
    assert_eq!(dir.apply_all(&ops), 1);
    assert_eq!(dir.file(4, FileRole::Count), None);
}

#[test]
fn ports_have_series_of_their_own() {
    let mut writer = Writer::with_increment(32).unwrap();
    let mut dir = MemoryDir::new();
    let records = [
        Record { port: 9009, ts: 1, val: 100 },
        Record { port: 9010, ts: 2, val: 200 },
        Record { port: 9009, ts: 3, val: 300 },
        Record { port: 9009, ts: 4, val: 400 },
        Record { port: 9010, ts: 5, val: 500 },
        Record { port: 1, ts: 6, val: 600 },
        Record { port: 9009, ts: 7, val: 700 },
    ];
    let (ops, error) = writer.run(&records);
    assert_eq!(error, None);
    assert_eq!(dir.apply_all(&ops), ops.len());
    assert_eq!(dir.rows(9009), Some(vec![(1, 100), (3, 300), (4, 400), (7, 700)]));
    assert_eq!(dir.rows(9010), Some(vec![(2, 200), (5, 500)]));
    assert_eq!(dir.rows(1), Some(vec![(6, 600)]));
    assert_eq!(dir.rows(2), Some(vec![]));
    assert_eq!(dir.count(2), 0);
    assert_eq!(dir.file(2, FileRole::Count), None);
}

#[test]
fn a_run_gives_the_operations_of_its_appends_one_after_the_other() {
    let records = [
        Record { port: 9009, ts: 1, val: 100 },
        Record { port: 9010, ts: 2, val: 200 },
        Record { port: 9009, ts: 3, val: 300 },
    ];
    let mut one_by_one = Writer::with_increment(16).unwrap();
    let mut expected = Vec::new();
    for r in records.iter() {
        expected.extend(one_by_one.append(r.port, r.ts, r.val).unwrap());
    }
    let mut writer = Writer::with_increment(16).unwrap();
    assert_eq!(writer.run(&records), (expected, None));
    assert_eq!(writer.run(&[]), (vec![], None));
}

#[test]
fn of_two_observations_for_a_port_the_earlier_has_the_smaller_row_index() {
    let mut writer = Writer::with_increment(16).unwrap();
    let mut dir = MemoryDir::new();
    let a = Record { port: 9009, ts: 50, val: 5 };
    let b = Record { port: 9009, ts: 40, val: 4 };
    let other = Record { port: 9010, ts: 45, val: 9 };
    let (ops, error) = writer.run(&[other, a, other, other, b, other]);
    assert_eq!(error, None);
    assert_eq!(dir.apply_all(&ops), ops.len());
    let rows = dir.rows(9009).unwrap();
    let index_a = rows.iter().position(|row| *row == (50, 5)).unwrap();
    let index_b = rows.iter().position(|row| *row == (40, 4)).unwrap();
    assert_eq!((index_a, index_b), (0, 1));
}

#[test]
fn writer_on_this_machine_grows_by_four_pages() {
    let mut writer = Writer::new().unwrap();
    let ops = writer.append(9009, 1, 2).unwrap();
    let four_pages = 4 * page_size::get() as u64;
    assert_eq!(ops[0], create(9009, FileRole::Timestamps, four_pages));
    assert_eq!(ops[1], create(9009, FileRole::Values, four_pages));
    let mut dir = MemoryDir::new();
    assert_eq!(dir.apply_all(&ops), ops.len());
    let rows = four_pages / 8;
    for i in 1..rows + 10 {
        store(&mut writer, &mut dir, 9009, i, i);
    }
    assert_eq!(dir.count(9009), rows + 10);
    assert_eq!(dir.file(9009, FileRole::Values).unwrap().len() as u64, 2 * four_pages);
    assert_eq!(dir.read_at(9009, rows + 9), Some((rows + 9, rows + 9)));
    assert_eq!(dir.read_at(9009, 0), Some((1, 2)));
}

#[test]
fn storage_errors_say_what_went_wrong() {
    assert_eq!(StorageError::InvalidIncrement.message(), "growth increment is smaller than one value");
    assert_eq!(StorageError::CapacityOverflow.message(), "column file cannot grow any further");
}

#[test]
fn a_column_cut_back_behind_a_lone_timestamp_leaves_count_and_rows() {
    let mut writer = Writer::with_increment(64).unwrap();
    let mut dir = MemoryDir::new();
    store(&mut writer, &mut dir, 9009, 1, 10);
    store(&mut writer, &mut dir, 9009, 2, 20);
    let ops = writer.append(9009, 3, 30).unwrap();
    assert_eq!(ops[0], write(9009, FileRole::Timestamps, 16, 3));
    assert!(dir.apply(&ops[0]));
    assert_eq!(&dir.file(9009, FileRole::Timestamps).unwrap()[16..24], &3u64.to_le_bytes());
    assert_eq!(dir.count(9009), 2);
    assert_eq!(dir.rows(9009), Some(vec![(1, 10), (2, 20)]));
    assert!(dir.apply(&resize(9009, FileRole::Timestamps, 16)));
    assert_eq!(dir.file(9009, FileRole::Timestamps).unwrap().len(), 16);
    assert_eq!(dir.count(9009), 2);
    assert_eq!(dir.rows(9009), Some(vec![(1, 10), (2, 20)]));
}
