//! What a reader finds in the files once the writer's operations are carried
//! out: the rows that were appended, in their order, whatever grew meanwhile
//! and wherever the work was cut short.

use crate::column::{lemma_appended_wf, ColumnState};
use crate::image::{
    apply, apply_all, holds_row, lemma_apply_all_concat, lemma_apply_all_one,
    lemma_apply_all_two, lemma_resized_value, lemma_written_value, resized, row_readable,
    stored_count, stored_row, stored_rows, value_at, written, zeros, Files,
};
use crate::ops::{
    create_op, le_bytes, lemma_le_array, write_op, FileAction, FileOp, FileRole,
    VALUE_WIDTH,
};
use crate::writer::{
    lemma_series_appended_wf, lemma_series_fresh_wf, lemma_writer_appended_wf, Record,
    SeriesState, WriterState,
};
use vstd::bytes::lemma_auto_spec_u64_to_from_le_bytes;
use vstd::prelude::*;

verus! {

/// The bytes of a column file after `val` is appended to the column `c`: the
/// file grown where it had to, with the value behind the rows already there.
pub open spec fn column_after(bytes: Seq<u8>, c: ColumnState, val: u64) -> Seq<u8> {
    written(resized(bytes, c.appended().cap as int), c.len as int, le_bytes(val))
}

/// What appending to a column does to its file: the file has the new
/// capacity, the new value is its last row, and every byte written before is
/// as it was.
pub proof fn lemma_column_append(files: Files, c: ColumnState, val: u64)
    requires
        c.wf(),
        c.can_append(),
        files.contains_key((c.port, c.role)),
        files[(c.port, c.role)].len() == c.cap,
    ensures
        apply_all(files, c.append_ops(val)) == files.insert(
            (c.port, c.role),
            column_after(files[(c.port, c.role)], c, val),
        ),
        column_after(files[(c.port, c.role)], c, val).len() == c.appended().cap,
        value_at(column_after(files[(c.port, c.role)], c, val), c.rows() as int) == val,
        forall|i: int|
            0 <= i < c.rows() ==> value_at(column_after(files[(c.port, c.role)], c, val), i)
                == #[trigger] value_at(files[(c.port, c.role)], i),
        forall|k: int|
            0 <= k < c.len ==> column_after(files[(c.port, c.role)], c, val)[k] == files[(
                c.port,
                c.role,
            )][k],
{
    let key = (c.port, c.role);
    let bytes = files[key];
    let cap = c.appended().cap as int;
    let grown = resized(bytes, cap);
    let after = column_after(bytes, c, val);
    let write = write_op(c.port, c.role, c.len, val);
    lemma_appended_wf(c);
    lemma_le_array(val);
    lemma_resized_value(bytes, cap);
    let row = c.rows() as int;
    assert(VALUE_WIDTH * row == c.len) by (nonlinear_arith)
        requires
            c.len % 8 == 0,
            row == c.len / 8,
            VALUE_WIDTH == 8,
    ;
    lemma_written_value(grown, row, val);
    assert forall|i: int| 0 <= i < c.rows() implies value_at(after, i) == #[trigger] value_at(
        bytes,
        i,
    ) by {
        assert(holds_row(bytes, i)) by (nonlinear_arith)
            requires
                0 <= i < row,
                8 * row == c.len,
                c.len < bytes.len(),
                VALUE_WIDTH == 8,
        ;
        assert(holds_row(grown, i));
        assert(value_at(grown, i) == value_at(bytes, i));
    }
    match c.growth() {
        Some(op) => {
            lemma_apply_all_two(files, op, write);
            assert(apply(files, op) == files.insert(key, grown));
            assert(files.insert(key, grown).insert(key, after) == files.insert(key, after));
        },
        None => {
            lemma_apply_all_one(files, write);
            assert(grown == bytes);
        },
    }
}

/// The three files of the series `s` are there: each column file has the
/// capacity of its column, and the count file holds the count.
pub open spec fn series_stored(files: Files, s: SeriesState) -> bool {
    &&& files.contains_key((s.port, FileRole::Timestamps))
    &&& files[(s.port, FileRole::Timestamps)].len() == s.ts.cap
    &&& files.contains_key((s.port, FileRole::Values))
    &&& files[(s.port, FileRole::Values)].len() == s.val.cap
    &&& files.contains_key((s.port, FileRole::Count))
    &&& files[(s.port, FileRole::Count)] == le_bytes(s.count)
}

/// The files after the row `(ts, val)` is appended to the series `s`.
pub open spec fn series_after(files: Files, s: SeriesState, ts: u64, val: u64) -> Files {
    files.insert(
        (s.port, FileRole::Timestamps),
        column_after(files[(s.port, FileRole::Timestamps)], s.ts, ts),
    ).insert(
        (s.port, FileRole::Values),
        column_after(files[(s.port, FileRole::Values)], s.val, val),
    ).insert((s.port, FileRole::Count), le_bytes((s.count + 1) as u64))
}

/// A count file that holds `count` is read as `count`.
pub proof fn lemma_count_read(files: Files, port: u16, count: u64)
    requires
        files.contains_key((port, FileRole::Count)),
        files[(port, FileRole::Count)] == le_bytes(count),
    ensures
        stored_count(files, port) == count,
{
    lemma_auto_spec_u64_to_from_le_bytes();
    let bytes = files[(port, FileRole::Count)];
    assert(bytes.subrange(0, 8) == bytes);
}

/// Storing a count in a count file replaces what the file held.
pub proof fn lemma_count_written(bytes: Seq<u8>, count: u64)
    requires
        bytes.len() == VALUE_WIDTH,
    ensures
        written(bytes, 0, le_bytes(count)) == le_bytes(count),
{
    lemma_auto_spec_u64_to_from_le_bytes();
    assert(written(bytes, 0, le_bytes(count)) =~= le_bytes(count));
}

/// What appending a row does to the files of its series: the reader finds
/// the rows that were there, and the new row behind them.
pub proof fn lemma_series_append(files: Files, s: SeriesState, ts: u64, val: u64)
    requires
        s.wf(),
        s.can_append(),
        series_stored(files, s),
    ensures
        apply_all(files, s.append_ops(ts, val)) == series_after(files, s, ts, val),
        series_stored(series_after(files, s, ts, val), s.appended()),
        stored_rows(series_after(files, s, ts, val), s.port) == stored_rows(files, s.port).push(
            (ts, val),
        ),
{
    let kts = (s.port, FileRole::Timestamps);
    let kval = (s.port, FileRole::Values);
    let kcount = (s.port, FileRole::Count);
    let next = (s.count + 1) as u64;
    lemma_series_appended_wf(s);
    lemma_auto_spec_u64_to_from_le_bytes();
    lemma_column_append(files, s.ts, ts);
    let f1 = files.insert(kts, column_after(files[kts], s.ts, ts));
    lemma_column_append(f1, s.val, val);
    let f2 = f1.insert(kval, column_after(files[kval], s.val, val));
    lemma_le_array(next);
    lemma_apply_all_one(f2, s.count_op());
    lemma_count_written(f2[kcount], next);
    let after = series_after(files, s, ts, val);
    assert(apply(f2, s.count_op()) == after);
    lemma_apply_all_concat(files, s.ts.append_ops(ts), s.val.append_ops(val));
    lemma_apply_all_concat(
        files,
        s.ts.append_ops(ts) + s.val.append_ops(val),
        seq![s.count_op()],
    );
    lemma_count_read(files, s.port, s.count);
    lemma_count_read(after, s.port, next);
    assert(s.ts.rows() == s.count && s.val.rows() == s.count) by (nonlinear_arith)
        requires
            s.count * 8 == s.ts.len,
            s.ts.len == s.val.len,
            s.ts.rows() == s.ts.len / 8,
            s.val.rows() == s.val.len / 8,
    ;
    assert(stored_rows(after, s.port) =~= stored_rows(files, s.port).push((ts, val)));
}

/// What creating a series does to the files: the three files of the port are
/// there, and the reader finds no row.
pub proof fn lemma_series_create(files: Files, port: u16, increment: u64)
    requires
        increment >= VALUE_WIDTH,
    ensures
        apply_all(files, SeriesState::create_ops(port, increment)) == files.insert(
            (port, FileRole::Timestamps),
            zeros(increment as int),
        ).insert((port, FileRole::Values), zeros(increment as int)).insert(
            (port, FileRole::Count),
            le_bytes(0),
        ),
        series_stored(
            apply_all(files, SeriesState::create_ops(port, increment)),
            SeriesState::fresh(port, increment),
        ),
        stored_count(apply_all(files, SeriesState::create_ops(port, increment)), port) == 0,
{
    let kts = (port, FileRole::Timestamps);
    let kval = (port, FileRole::Values);
    let kcount = (port, FileRole::Count);
    let a = create_op(port, FileRole::Timestamps, increment);
    let b = create_op(port, FileRole::Values, increment);
    let c = create_op(port, FileRole::Count, VALUE_WIDTH);
    let d = write_op(port, FileRole::Count, 0, 0);
    lemma_le_array(0);
    lemma_apply_all_two(files, a, b);
    let f2 = apply(apply(files, a), b);
    lemma_apply_all_two(f2, c, d);
    lemma_apply_all_concat(files, seq![a, b], seq![c, d]);
    lemma_count_written(zeros(VALUE_WIDTH as int), 0);
    let after = files.insert(kts, zeros(increment as int)).insert(
        kval,
        zeros(increment as int),
    ).insert(kcount, le_bytes(0));
    assert(apply(apply(f2, c), d) == after);
    lemma_count_read(after, port, 0);
}

/// The files are those of the writer's series and no others, each series
/// with its three files.
pub open spec fn in_step(files: Files, w: WriterState) -> bool {
    &&& forall|port: u16, role: FileRole| #[trigger]
        files.contains_key((port, role)) <==> w.series.contains_key(port)
    &&& forall|port: u16| #[trigger]
        w.series.contains_key(port) ==> series_stored(files, w.series[port])
}

/// The files of every port but `port` are the same in `before` and `after`.
pub open spec fn same_but(before: Files, after: Files, port: u16) -> bool {
    forall|q: u16, role: FileRole|
        q != port ==> {
            &&& #[trigger] after.contains_key((q, role)) == before.contains_key((q, role))
            &&& after[(q, role)] == before[(q, role)]
        }
}

/// A port whose files are untouched keeps its rows.
pub proof fn lemma_same_rows(before: Files, after: Files, port: u16, q: u16)
    requires
        same_but(before, after, port),
        q != port,
    ensures
        stored_count(after, q) == stored_count(before, q),
        stored_rows(after, q) == stored_rows(before, q),
{
    assert(after.contains_key((q, FileRole::Count)) == before.contains_key((q, FileRole::Count)));
    assert(after.contains_key((q, FileRole::Timestamps)) == before.contains_key(
        (q, FileRole::Timestamps),
    ));
    assert(after.contains_key((q, FileRole::Values)) == before.contains_key(
        (q, FileRole::Values),
    ));
    assert(stored_rows(after, q) =~= stored_rows(before, q));
}

/// Appending one row through the writer: the reader finds the rows of the
/// port as they were, with the new row behind them; the files of all other
/// ports are untouched; and files and writer stay in step.
pub proof fn lemma_append_stored(files: Files, w: WriterState, port: u16, ts: u64, val: u64)
    requires
        w.wf(),
        in_step(files, w),
        w.can_append(port),
    ensures
        in_step(apply_all(files, w.append_ops(port, ts, val)), w.appended(port)),
        stored_rows(apply_all(files, w.append_ops(port, ts, val)), port) == stored_rows(
            files,
            port,
        ).push((ts, val)),
        same_but(files, apply_all(files, w.append_ops(port, ts, val)), port),
{
    let after = apply_all(files, w.append_ops(port, ts, val));
    let s = w.series_for(port);
    let next = w.appended(port);
    lemma_series_fresh_wf(port, w.increment);
    if w.series.contains_key(port) {
        lemma_series_append(files, s, ts, val);
        assert(after == series_after(files, s, ts, val));
    } else {
        let created = apply_all(files, SeriesState::create_ops(port, w.increment));
        lemma_series_create(files, port, w.increment);
        lemma_series_append(created, s, ts, val);
        lemma_apply_all_concat(
            files,
            SeriesState::create_ops(port, w.increment),
            s.append_ops(ts, val),
        );
        assert(after == series_after(created, s, ts, val));
        assert(!files.contains_key((port, FileRole::Count)));
        assert(stored_rows(files, port) =~= Seq::<(u64, u64)>::empty());
        assert(stored_rows(created, port) =~= Seq::<(u64, u64)>::empty());
    }
    assert(same_but(files, after, port));
    assert forall|q: u16, role: FileRole| #[trigger]
        after.contains_key((q, role)) <==> next.series.contains_key(q) by {
        if q != port {
            assert(after.contains_key((q, role)) == files.contains_key((q, role)));
        } else {
            assert(role == FileRole::Timestamps || role == FileRole::Values || role
                == FileRole::Count);
        }
    }
    assert forall|q: u16| #[trigger] next.series.contains_key(q) implies series_stored(
        after,
        next.series[q],
    ) by {
        if q != port {
            assert(w.series.contains_key(q));
            assert(series_stored(files, w.series[q]));
            assert(after.contains_key((q, FileRole::Timestamps)) == files.contains_key(
                (q, FileRole::Timestamps),
            ));
            assert(after.contains_key((q, FileRole::Values)) == files.contains_key(
                (q, FileRole::Values),
            ));
            assert(after.contains_key((q, FileRole::Count)) == files.contains_key(
                (q, FileRole::Count),
            ));
        }
    }
}

/// Every row that the count of a port reaches is held in full by both
/// column files: while files and writer are in step, a reader can read as
/// many rows as the count says.
pub proof fn lemma_rows_readable(files: Files, w: WriterState, port: u16)
    requires
        w.wf(),
        in_step(files, w),
    ensures
        forall|i: int| 0 <= i < stored_count(files, port) ==> row_readable(files, port, i),
{
    if w.series.contains_key(port) {
        let s = w.series[port];
        lemma_count_read(files, port, s.count);
        assert forall|i: int| 0 <= i < stored_count(files, port) implies row_readable(
            files,
            port,
            i,
        ) by {
            assert(VALUE_WIDTH * i + VALUE_WIDTH <= s.ts.len) by (nonlinear_arith)
                requires
                    0 <= i < s.count,
                    s.count * VALUE_WIDTH == s.ts.len,
            ;
        }
    } else {
        assert(!files.contains_key((port, FileRole::Count)));
    }
}

/// The rows that `records` hold for `port`, in the order of the records.
pub open spec fn rows_of(records: Seq<Record>, port: u16) -> Seq<(u64, u64)>
    decreases records.len(),
{
    if records.len() == 0 {
        Seq::empty()
    } else {
        let rest = rows_of(records.drop_last(), port);
        let r = records.last();
        if r.port == port {
            rest.push((r.ts, r.val))
        } else {
            rest
        }
    }
}

/// No more records are consumed than there are.
pub proof fn lemma_consumed_bound(w: WriterState, records: Seq<Record>)
    ensures
        w.consumed(records) <= records.len(),
    decreases records.len(),
{
    if records.len() > 0 {
        lemma_consumed_bound(w, records.drop_last());
    }
}

/// Round trip. Where all of `records` can be stored, a reader of the files
/// finds for every port the rows that were there before, and behind them the
/// rows that the records hold for the port, in the order of the records.
pub proof fn lemma_run_stored(files: Files, w: WriterState, records: Seq<Record>)
    requires
        w.wf(),
        in_step(files, w),
        w.consumed(records) == records.len(),
    ensures
        w.ran(records).wf(),
        in_step(apply_all(files, w.run_ops(records)), w.ran(records)),
        forall|port: u16|
            #[trigger] stored_rows(apply_all(files, w.run_ops(records)), port) == stored_rows(
                files,
                port,
            ) + rows_of(records, port),
    decreases records.len(),
{
    let after = apply_all(files, w.run_ops(records));
    if records.len() == 0 {
        assert forall|port: u16| #[trigger]
            stored_rows(after, port) == stored_rows(files, port) + rows_of(records, port) by {
            assert(stored_rows(files, port) + Seq::<(u64, u64)>::empty() == stored_rows(
                files,
                port,
            ));
        }
    } else {
        let head = records.drop_last();
        let r = records.last();
        lemma_consumed_bound(w, head);
        lemma_run_stored(files, w, head);
        let mid = apply_all(files, w.run_ops(head));
        let wm = w.ran(head);
        lemma_writer_appended_wf(wm, r.port);
        lemma_append_stored(mid, wm, r.port, r.ts, r.val);
        lemma_apply_all_concat(files, w.run_ops(head), wm.append_ops(r.port, r.ts, r.val));
        assert forall|port: u16| #[trigger]
            stored_rows(after, port) == stored_rows(files, port) + rows_of(records, port) by {
            assert(stored_rows(mid, port) == stored_rows(files, port) + rows_of(head, port));
            if port == r.port {
                assert((stored_rows(files, port) + rows_of(head, port)).push((r.ts, r.val))
                    == stored_rows(files, port) + rows_of(head, port).push((r.ts, r.val)));
            } else {
                lemma_same_rows(mid, after, r.port, port);
            }
        }
    }
}

/// Round trip from an empty directory: a reader finds for every port exactly
/// the rows that the records hold for it, in the order of the records.
pub proof fn lemma_round_trip(increment: u64, records: Seq<Record>, port: u16)
    requires
        increment >= VALUE_WIDTH,
        WriterState::fresh(increment).consumed(records) == records.len(),
    ensures
        stored_rows(
            apply_all(Map::empty(), WriterState::fresh(increment).run_ops(records)),
            port,
        ) == rows_of(records, port),
{
    let w = WriterState::fresh(increment);
    let files: Files = Map::empty();
    lemma_run_stored(files, w, records);
    assert(stored_rows(files, port) == Seq::<(u64, u64)>::empty());
    assert(Seq::<(u64, u64)>::empty() + rows_of(records, port) == rows_of(records, port));
}

/// The index of the row of record `i` among the rows of its port.
pub open spec fn row_index(records: Seq<Record>, i: int) -> nat {
    rows_of(records.take(i), records[i].port).len()
}

/// The rows of a longer run of records begin with the rows of a shorter one.
pub proof fn lemma_rows_prefix(records: Seq<Record>, port: u16, i: int)
    requires
        0 <= i <= records.len(),
    ensures
        rows_of(records.take(i), port).len() <= rows_of(records, port).len(),
        forall|k: int|
            0 <= k < rows_of(records.take(i), port).len() ==> rows_of(records, port)[k]
                == rows_of(records.take(i), port)[k],
    decreases records.len(),
{
    if i < records.len() {
        assert(records.drop_last().take(i) == records.take(i));
        lemma_rows_prefix(records.drop_last(), port, i);
    } else {
        assert(records.take(i) == records);
    }
}

/// Order. Of two records for one port, the earlier has the smaller row
/// index, and each is the row at its index.
pub proof fn lemma_rows_in_order(records: Seq<Record>, i: int, j: int)
    requires
        0 <= i < j < records.len(),
        records[i].port == records[j].port,
    ensures
        row_index(records, i) < row_index(records, j) < rows_of(records, records[i].port).len(),
        rows_of(records, records[i].port)[row_index(records, i) as int] == (
            records[i].ts,
            records[i].val,
        ),
        rows_of(records, records[i].port)[row_index(records, j) as int] == (
            records[j].ts,
            records[j].val,
        ),
{
    let port = records[i].port;
    let upto_i = records.take(i + 1);
    let upto_j = records.take(j + 1);
    assert(upto_i.drop_last() == records.take(i));
    assert(upto_j.drop_last() == records.take(j));
    assert(upto_i.last() == records[i]);
    assert(upto_j.last() == records[j]);
    assert(records.take(j).take(i + 1) == upto_i);
    lemma_rows_prefix(records.take(j), port, i + 1);
    lemma_rows_prefix(records, port, i + 1);
    lemma_rows_prefix(records, port, j + 1);
}

/// Order in the files. After a run from an empty directory, of two records
/// for one port the earlier is found at the smaller row index of the port's
/// columns.
pub proof fn lemma_stored_in_order(increment: u64, records: Seq<Record>, i: int, j: int)
    requires
        increment >= VALUE_WIDTH,
        WriterState::fresh(increment).consumed(records) == records.len(),
        0 <= i < j < records.len(),
        records[i].port == records[j].port,
    ensures
        ({
            let after = apply_all(Map::empty(), WriterState::fresh(increment).run_ops(records));
            let port = records[i].port;
            &&& row_index(records, i) < row_index(records, j) < stored_count(after, port)
            &&& stored_row(after, port, row_index(records, i) as int) == (
                records[i].ts,
                records[i].val,
            )
            &&& stored_row(after, port, row_index(records, j) as int) == (
                records[j].ts,
                records[j].val,
            )
        }),
{
    let after = apply_all(Map::empty(), WriterState::fresh(increment).run_ops(records));
    let port = records[i].port;
    lemma_round_trip(increment, records, port);
    lemma_rows_in_order(records, i, j);
    let rows = stored_rows(after, port);
    assert(rows[row_index(records, i) as int] == stored_row(
        after,
        port,
        row_index(records, i) as int,
    ));
    assert(rows[row_index(records, j) as int] == stored_row(
        after,
        port,
        row_index(records, j) as int,
    ));
}

/// Growth. Appending a row changes no byte that holds a row written before,
/// in any column file, whether or not a file grows for the new row.
pub proof fn lemma_append_keeps_bytes(
    files: Files,
    w: WriterState,
    port: u16,
    ts: u64,
    val: u64,
)
    requires
        w.wf(),
        in_step(files, w),
        w.can_append(port),
    ensures
        forall|q: u16, role: FileRole, k: int|
            w.series.contains_key(q) && role != FileRole::Count && 0 <= k < w.series[q].ts.len
                ==> #[trigger] apply_all(files, w.append_ops(port, ts, val))[(q, role)][k]
                == files[(q, role)][k],
{
    let after = apply_all(files, w.append_ops(port, ts, val));
    lemma_append_stored(files, w, port, ts, val);
    if w.series.contains_key(port) {
        let s = w.series[port];
        lemma_series_append(files, s, ts, val);
        lemma_column_append(files, s.ts, ts);
        let f1 = files.insert(
            (port, FileRole::Timestamps),
            column_after(files[(port, FileRole::Timestamps)], s.ts, ts),
        );
        lemma_column_append(f1, s.val, val);
    }
    assert forall|q: u16, role: FileRole, k: int|
        w.series.contains_key(q) && role != FileRole::Count && 0 <= k < w.series[q].ts.len
        implies #[trigger] after[(q, role)][k] == files[(q, role)][k] by {
        if q != port {
            assert(after.contains_key((q, role)) == files.contains_key((q, role)));
        } else {
            assert(role == FileRole::Timestamps || role == FileRole::Values);
        }
    }
}

/// Growth over a run. However many rows a run appends, and however often
/// files grow for them, no byte that held a row before the run is changed.
pub proof fn lemma_run_keeps_bytes(files: Files, w: WriterState, records: Seq<Record>)
    requires
        w.wf(),
        in_step(files, w),
        w.consumed(records) == records.len(),
    ensures
        forall|q: u16| #[trigger]
            w.series.contains_key(q) ==> w.ran(records).series.contains_key(q) && w.ran(
                records,
            ).series[q].ts.len >= w.series[q].ts.len,
        forall|q: u16, role: FileRole, k: int|
            w.series.contains_key(q) && role != FileRole::Count && 0 <= k < w.series[q].ts.len
                ==> #[trigger] apply_all(files, w.run_ops(records))[(q, role)][k] == files[(
                q,
                role,
            )][k],
    decreases records.len(),
{
    if records.len() > 0 {
        let head = records.drop_last();
        let r = records.last();
        let mid = apply_all(files, w.run_ops(head));
        let wm = w.ran(head);
        let after = apply_all(files, w.run_ops(records));
        lemma_consumed_bound(w, head);
        lemma_run_keeps_bytes(files, w, head);
        lemma_run_stored(files, w, head);
        lemma_append_keeps_bytes(mid, wm, r.port, r.ts, r.val);
        lemma_apply_all_concat(files, w.run_ops(head), wm.append_ops(r.port, r.ts, r.val));
        assert forall|q: u16| #[trigger] w.series.contains_key(q) implies w.ran(
            records,
        ).series.contains_key(q) && w.ran(records).series[q].ts.len >= w.series[q].ts.len by {
            assert(wm.series.contains_key(q));
            if q == r.port {
                lemma_appended_wf(wm.series[q].ts);
            }
        }
        assert forall|q: u16, role: FileRole, k: int|
            w.series.contains_key(q) && role != FileRole::Count && 0 <= k < w.series[q].ts.len
            implies #[trigger] after[(q, role)][k] == files[(q, role)][k] by {
            assert(wm.series.contains_key(q));
            assert(mid[(q, role)][k] == files[(q, role)][k]);
            assert(after[(q, role)][k] == mid[(q, role)][k]);
        }
    }
}

/// The operation leaves alone the first `count` rows of the series of `port`
/// and the count itself: it concerns another port, creates a file while the
/// count is zero, stores the same count again, or touches a column only
/// behind its first `count` rows.
pub open spec fn keeps_rows(op: FileOp, port: u16, count: u64) -> bool {
    op.port == port ==> match op.action {
        FileAction::Create { size } => count == 0,
        FileAction::Resize { size } => op.role != FileRole::Count && size >= VALUE_WIDTH * count,
        FileAction::Write { offset, bytes } => if op.role == FileRole::Count {
            offset == 0 && bytes@ == le_bytes(count)
        } else {
            offset >= VALUE_WIDTH * count
        },
    }
}

/// A reader of `files` finds `count` rows for `port`, and both column files
/// hold that many.
pub open spec fn readable(files: Files, port: u16, count: u64) -> bool {
    &&& stored_count(files, port) == count
    &&& count > 0 ==> {
        &&& files.contains_key((port, FileRole::Timestamps))
        &&& files[(port, FileRole::Timestamps)].len() >= VALUE_WIDTH * count
        &&& files.contains_key((port, FileRole::Values))
        &&& files[(port, FileRole::Values)].len() >= VALUE_WIDTH * count
    }
}

/// Eight zero bytes are read as zero.
pub proof fn lemma_zeros_value(bytes: Seq<u8>)
    requires
        bytes.len() >= VALUE_WIDTH,
        forall|k: int| 0 <= k < VALUE_WIDTH ==> bytes[k] == 0,
    ensures
        value_at(bytes, 0) == 0,
{
    lemma_auto_spec_u64_to_from_le_bytes();
    vstd::bytes::spec_u64_to_le_bytes_to_open(0);
    assert(0u64 & 0xff == 0 && (0u64 >> 8) & 0xff == 0 && (0u64 >> 16) & 0xff == 0 && (0u64
        >> 24) & 0xff == 0 && (0u64 >> 32) & 0xff == 0 && (0u64 >> 40) & 0xff == 0 && (0u64
        >> 48) & 0xff == 0 && (0u64 >> 56) & 0xff == 0) by (bit_vector);
    assert(bytes.subrange(0, 8) =~= le_bytes(0));
}

/// An operation that keeps the rows of a port leaves the reader with the
/// same count and the same rows.
pub proof fn lemma_keeps_rows(files: Files, op: FileOp, port: u16, count: u64)
    requires
        readable(files, port, count),
        keeps_rows(op, port, count),
    ensures
        readable(apply(files, op), port, count),
        stored_rows(apply(files, op), port) == stored_rows(files, port),
{
    let after = apply(files, op);
    let key = (op.port, op.role);
    let kcount = (port, FileRole::Count);
    lemma_auto_spec_u64_to_from_le_bytes();
    if op.port == port {
        match op.action {
            FileAction::Create { size } => {
                if op.role == FileRole::Count && size >= VALUE_WIDTH {
                    lemma_zeros_value(zeros(size as int));
                }
            },
            FileAction::Resize { size } => {
                if files.contains_key(key) {
                    let before = files[key];
                    let now = resized(before, size as int);
                    assert(after[kcount] == files[kcount]);
                    assert forall|i: int| 0 <= i < count implies value_at(now, i) == value_at(
                        before,
                        i,
                    ) by {
                        assert(VALUE_WIDTH * i + VALUE_WIDTH <= VALUE_WIDTH * count)
                            by (nonlinear_arith)
                            requires
                                0 <= i < count,
                        ;
                        assert(now.subrange(VALUE_WIDTH * i, VALUE_WIDTH * i + VALUE_WIDTH)
                            == before.subrange(VALUE_WIDTH * i, VALUE_WIDTH * i + VALUE_WIDTH));
                    }
                }
            },
            FileAction::Write { offset, bytes } => {
                if files.contains_key(key) {
                    let before = files[key];
                    let now = written(before, offset as int, bytes@);
                    if op.role == FileRole::Count {
                        if before.len() >= VALUE_WIDTH {
                            assert(now.subrange(0, 8) == le_bytes(count));
                        }
                    } else {
                        assert(after[kcount] == files[kcount]);
                        assert forall|i: int| 0 <= i < count implies value_at(now, i)
                            == value_at(before, i) by {
                            assert(VALUE_WIDTH * i + VALUE_WIDTH <= VALUE_WIDTH * count)
                                by (nonlinear_arith)
                                requires
                                    0 <= i < count,
                            ;
                            assert(now.subrange(VALUE_WIDTH * i, VALUE_WIDTH * i + VALUE_WIDTH)
                                == before.subrange(
                                VALUE_WIDTH * i,
                                VALUE_WIDTH * i + VALUE_WIDTH,
                            ));
                        }
                    }
                }
            },
        }
    }
    assert(stored_count(after, port) == count);
    assert(stored_rows(after, port) =~= stored_rows(files, port));
}

/// Operations that all keep the rows of a port leave the reader with the
/// same count and the same rows.
pub proof fn lemma_all_keep_rows(files: Files, ops: Seq<FileOp>, port: u16, count: u64)
    requires
        readable(files, port, count),
        forall|i: int| 0 <= i < ops.len() ==> keeps_rows(#[trigger] ops[i], port, count),
    ensures
        readable(apply_all(files, ops), port, count),
        stored_rows(apply_all(files, ops), port) == stored_rows(files, port),
    decreases ops.len(),
{
    if ops.len() > 0 {
        let head = ops.drop_last();
        assert forall|i: int| 0 <= i < head.len() implies keeps_rows(
            #[trigger] head[i],
            port,
            count,
        ) by {
            assert(head[i] == ops[i]);
        }
        lemma_all_keep_rows(files, head, port, count);
        lemma_keeps_rows(apply_all(files, head), ops.last(), port, count);
    }
}

/// Of the operations that append a row, all but the last keep the rows of
/// the series; the last is the write of the new count.
pub proof fn lemma_series_ops_keep_rows(s: SeriesState, ts: u64, val: u64)
    requires
        s.wf(),
        s.can_append(),
    ensures
        s.append_ops(ts, val).len() >= 3,
        s.append_ops(ts, val).last() == s.count_op(),
        forall|i: int|
            0 <= i < s.append_ops(ts, val).len() - 1 ==> keeps_rows(
                #[trigger] s.append_ops(ts, val)[i],
                s.port,
                s.count,
            ),
{
    let a = s.ts.append_ops(ts);
    let b = s.val.append_ops(val);
    let ops = s.append_ops(ts, val);
    lemma_appended_wf(s.ts);
    lemma_appended_wf(s.val);
    assert forall|i: int| 0 <= i < ops.len() - 1 implies keeps_rows(
        #[trigger] ops[i],
        s.port,
        s.count,
    ) by {
        if i < a.len() {
            assert(ops[i] == a[i]);
        } else {
            assert(ops[i] == b[i - a.len()]);
        }
    }
}

/// The operations that create a series keep the rows of a port that has
/// none.
pub proof fn lemma_create_ops_keep_rows(port: u16, increment: u64)
    ensures
        SeriesState::create_ops(port, increment).len() == 4,
        forall|i: int|
            0 <= i < 4 ==> keeps_rows(
                #[trigger] SeriesState::create_ops(port, increment)[i],
                port,
                0,
            ),
{
    lemma_le_array(0);
}

/// Cut short. Where the operations of an append are carried out only in
/// part, in their order, a reader finds the count and the rows that were
/// there before the append: the count rises with the last operation alone,
/// when timestamp and value are both in place.
pub proof fn lemma_cut_short(files: Files, w: WriterState, port: u16, ts: u64, val: u64, k: int)
    requires
        w.wf(),
        in_step(files, w),
        w.can_append(port),
        0 <= k < w.append_ops(port, ts, val).len(),
    ensures
        stored_count(apply_all(files, w.append_ops(port, ts, val).take(k)), port)
            == stored_count(files, port),
        stored_rows(apply_all(files, w.append_ops(port, ts, val).take(k)), port) == stored_rows(
            files,
            port,
        ),
        forall|i: int|
            0 <= i < stored_count(files, port) ==> row_readable(
                apply_all(files, w.append_ops(port, ts, val).take(k)),
                port,
                i,
            ),
{
    let ops = w.append_ops(port, ts, val);
    let done = ops.take(k);
    let s = w.series_for(port);
    lemma_series_fresh_wf(port, w.increment);
    lemma_series_ops_keep_rows(s, ts, val);
    lemma_create_ops_keep_rows(port, w.increment);
    if w.series.contains_key(port) {
        lemma_count_read(files, port, s.count);
    } else {
        assert(!files.contains_key((port, FileRole::Count)));
    }
    assert(readable(files, port, s.count));
    assert forall|i: int| 0 <= i < done.len() implies keeps_rows(
        #[trigger] done[i],
        port,
        s.count,
    ) by {
        assert(done[i] == ops[i]);
        if !w.series.contains_key(port) {
            let made = SeriesState::create_ops(port, w.increment);
            if i < 4 {
                assert(ops[i] == made[i]);
            } else {
                assert(ops[i] == s.append_ops(ts, val)[i - 4]);
            }
        }
    }
    lemma_all_keep_rows(files, done, port, s.count);
    let cut = apply_all(files, done);
    assert forall|i: int| 0 <= i < stored_count(files, port) implies row_readable(
        cut,
        port,
        i,
    ) by {
        assert(VALUE_WIDTH * i + VALUE_WIDTH <= VALUE_WIDTH * s.count) by (nonlinear_arith)
            requires
                0 <= i < s.count,
        ;
    }
}

} // verus!
