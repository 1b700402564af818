//! Validation of one batch of rows read from the store database.
//!
//! The database is read by an external connection while another process
//! may be writing it, so every row is distrusted: a malformed path or an
//! impossible timestamp aborts the whole batch.

use vstd::prelude::*;
use crate::cache::Timestamp;
use crate::storepath::{spec_valid_store_path, valid_store_path};

verus! {

/// One row of the store's registration table.
pub struct BatchRow {
    pub path: String,
    pub time: Timestamp,
}

/// The mathematical shape of a row.
pub struct RowModel {
    pub path: Seq<char>,
    pub time: int,
}

impl View for BatchRow {
    type V = RowModel;

    open spec fn view(&self) -> RowModel {
        RowModel { path: self.path@, time: self.time as int }
    }
}

/// Why a batch was thrown away.
#[derive(Clone, Copy, Debug, PartialEq, Eq, Structural)]
pub enum BatchError {
    /// A row's path does not look like a store path: a concurrent
    /// writer left it torn.
    CorruptRow,
    /// Paths came back whose greatest registration time is zero.
    InconsistentTimestamps,
}

/// A row the batch may keep: a well-formed store path, registered no
/// earlier than the watermark the query was made with, at a time whose
/// successor is still representable.
pub open spec fn row_ok(r: RowModel, lo: int) -> bool {
    spec_valid_store_path(r.path) && lo <= r.time < i64::MAX as int
}

/// The greatest registration time among the rows, or 0 of none.
pub open spec fn spec_max_time(rows: Seq<RowModel>) -> int
    decreases rows.len(),
{
    if rows.len() == 0 {
        0
    } else if rows.last().time > spec_max_time(rows.drop_last()) {
        rows.last().time
    } else {
        spec_max_time(rows.drop_last())
    }
}

/// What a validated batch yields.
pub enum BatchModel {
    Rejected(BatchError),
    /// The paths to scan and the watermark to persist once they are done.
    Ready(Seq<Seq<char>>, int),
}

/// The outcome a batch of rows must produce: every row checked, the
/// empty batch left at the old watermark, and otherwise the paths in
/// row order with the successor of the greatest registration time.
pub open spec fn spec_batch(rows: Seq<RowModel>, lo: int) -> BatchModel {
    if exists|i: int| 0 <= i < rows.len() && !row_ok(#[trigger] rows[i], lo) {
        BatchModel::Rejected(BatchError::CorruptRow)
    } else if rows.len() == 0 {
        BatchModel::Ready(Seq::empty(), lo)
    } else if spec_max_time(rows) == 0 {
        BatchModel::Rejected(BatchError::InconsistentTimestamps)
    } else {
        BatchModel::Ready(rows.map_values(|r: RowModel| r.path), spec_max_time(rows) + 1)
    }
}

/// The models of a vector of rows.
pub open spec fn rows_model(rows: Seq<BatchRow>) -> Seq<RowModel> {
    rows.map_values(|b: BatchRow| b@)
}

/// Validates one batch of rows read with watermark `lo` and turns it
/// into the paths to scan and the watermark to persist after them.
pub fn process_batch_rows(rows: &Vec<BatchRow>, lo: Timestamp) -> (r: Result<
    (Vec<String>, Timestamp),
    BatchError,
>)
    requires
        0 <= lo,
    ensures
        match r {
            Err(e) => spec_batch(rows_model(rows@), lo as int) == BatchModel::Rejected(e),
            Ok(out) => spec_batch(rows_model(rows@), lo as int) == BatchModel::Ready(
                out.0.deep_view(),
                out.1 as int,
            ),
        },
        r matches Ok(out) ==> ((out.0.len() > 0 ==> lo < out.1) && (out.0.len() == 0 ==> out.1
            == lo)),
{
    let ghost m = rows_model(rows@);
    let n = rows.len();
    let mut paths: Vec<String> = Vec::new();
    let mut max_time: Timestamp = 0;
    let mut i: usize = 0;
    while i < n
        invariant
            0 <= lo,
            n == rows.len(),
            m == rows_model(rows@),
            i <= n,
            forall|j: int| 0 <= j < i ==> row_ok(#[trigger] m[j], lo as int),
            paths@.len() == i,
            forall|j: int| 0 <= j < i ==> (#[trigger] paths@[j])@ == m[j].path,
            max_time == spec_max_time(m.subrange(0, i as int)),
            0 <= max_time < i64::MAX,
            i > 0 ==> lo <= max_time,
        decreases n - i,
    {
        let ok_path = valid_store_path(rows[i].path.as_str());
        let t = rows[i].time;
        if !ok_path || t < lo || t == i64::MAX {
            assert(!row_ok(m[i as int], lo as int));
            return Err(BatchError::CorruptRow);
        }
        paths.push(rows[i].path.clone());
        if t > max_time {
            max_time = t;
        }
        proof {
            assert(m.subrange(0, i + 1).drop_last() =~= m.subrange(0, i as int));
            assert(m.subrange(0, i + 1).last() == m[i as int]);
        }
        i += 1;
    }
    proof {
        assert(m.subrange(0, n as int) =~= m);
        assert(paths.deep_view() =~= m.map_values(|r: RowModel| r.path));
    }
    if n == 0 {
        proof {
            assert(paths.deep_view() =~= Seq::<Seq<char>>::empty());
        }
        return Ok((paths, lo));
    }
    if max_time == 0 {
        return Err(BatchError::InconsistentTimestamps);
    }
    Ok((paths, max_time + 1))
}

} // verus!
