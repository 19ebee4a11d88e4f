//! Column derivation for the picker's table: the relative-time labels of
//! each row and the widths the two time columns need.

use vstd::prelude::*;
use crate::rows::{Row, RowModel};
use crate::time::{ago_label, human_time_ago};
use vstd::string::StringExecFns;

verus! {

/// The display width, in terminal cells, of a character sequence; named
/// here because it is defined by a large Unicode table.
pub uninterp spec fn display_width(s: Seq<char>) -> int;

/// Relies on unicode_width::UnicodeWidthStr::width: the display width of
/// the string in terminal cells, a function of the characters alone.
#[verifier::external_body]
fn str_display_width(s: &str) -> (r: usize)
    ensures
        r as int == display_width(s@),
{
    unicode_width::UnicodeWidthStr::width(s)
}

/// The label of a row's creation column: its age, or a dash when unknown.
pub open spec fn created_label(r: RowModel, now: int) -> Seq<char> {
    match r.created_at {
        Some(t) => ago_label(now, t as int),
        None => "-"@,
    }
}

/// The label of a row's update column: the age of the last update, the
/// creation age as fallback, or a dash when neither is known.
pub open spec fn updated_label(r: RowModel, now: int) -> Seq<char> {
    match r.updated_at {
        Some(t) => ago_label(now, t as int),
        None => match r.created_at {
            Some(c) => ago_label(now, c as int),
            None => "-"@,
        },
    }
}

/// Renders the creation-column label of one row, as seen from `now`.
pub fn format_created_label(row: &Row, now: i64) -> (r: String)
    ensures
        r@ == created_label(row@, now as int),
{
    match row.created_at {
        Some(t) => human_time_ago(now, t),
        None => String::from_str("-"),
    }
}

/// Renders the update-column label of one row, as seen from `now`.
pub fn format_updated_label(row: &Row, now: i64) -> (r: String)
    ensures
        r@ == updated_label(row@, now as int),
{
    match row.updated_at {
        Some(t) => human_time_ago(now, t),
        None => match row.created_at {
            Some(c) => human_time_ago(now, c),
            None => String::from_str("-"),
        },
    }
}

/// The width the creation column needs for these rows: the widest label,
/// never narrower than its header.
pub open spec fn created_width_of(rows: Seq<RowModel>, now: int) -> int
    decreases rows.len(),
{
    if rows.len() == 0 {
        display_width("Created"@)
    } else {
        let m = created_width_of(rows.drop_last(), now);
        let w = display_width(created_label(rows.last(), now));
        if w > m {
            w
        } else {
            m
        }
    }
}

/// The width the update column needs for these rows: the widest label,
/// never narrower than its header.
pub open spec fn updated_width_of(rows: Seq<RowModel>, now: int) -> int
    decreases rows.len(),
{
    if rows.len() == 0 {
        display_width("Updated"@)
    } else {
        let m = updated_width_of(rows.drop_last(), now);
        let w = display_width(updated_label(rows.last(), now));
        if w > m {
            w
        } else {
            m
        }
    }
}

/// The derived table columns: per-row labels and the widths of the two
/// time columns.
pub struct ColumnMetrics {
    pub max_created_width: usize,
    pub max_updated_width: usize,
    pub labels: Vec<(String, String)>,
}

/// Derives the time-column labels and widths for the listed rows, as seen
/// from `now`.
pub fn calculate_column_metrics(rows: &Vec<Row>, now: i64) -> (r: ColumnMetrics)
    ensures
        r.labels@.len() == rows@.len(),
        forall|i: int|
            0 <= i < rows@.len() ==> (#[trigger] r.labels@[i]).0@ == created_label(
                rows@[i]@,
                now as int,
            ) && r.labels@[i].1@ == updated_label(rows@[i]@, now as int),
        r.max_created_width as int == created_width_of(crate::rows::row_models(rows@), now as int),
        r.max_updated_width as int == updated_width_of(crate::rows::row_models(rows@), now as int),
{
    let mut labels: Vec<(String, String)> = Vec::new();
    let mut max_created_width = str_display_width("Created");
    let mut max_updated_width = str_display_width("Updated");
    let mut i: usize = 0;
    while i < rows.len()
        invariant
            i <= rows@.len(),
            labels@.len() == i,
            forall|k: int|
                0 <= k < i ==> (#[trigger] labels@[k]).0@ == created_label(rows@[k]@, now as int)
                    && labels@[k].1@ == updated_label(rows@[k]@, now as int),
            max_created_width as int == created_width_of(
                crate::rows::row_models(rows@.subrange(0, i as int)),
                now as int,
            ),
            max_updated_width as int == updated_width_of(
                crate::rows::row_models(rows@.subrange(0, i as int)),
                now as int,
            ),
        decreases rows@.len() - i,
    {
        let created = format_created_label(&rows[i], now);
        let updated = format_updated_label(&rows[i], now);
        let cw = str_display_width(created.as_str());
        let uw = str_display_width(updated.as_str());
        proof {
            let pre = crate::rows::row_models(rows@.subrange(0, i as int));
            let cur = crate::rows::row_models(rows@.subrange(0, i + 1));
            assert(cur.drop_last() =~= pre);
            assert(cur.last() == rows@[i as int]@);
        }
        if cw > max_created_width {
            max_created_width = cw;
        }
        if uw > max_updated_width {
            max_updated_width = uw;
        }
        labels.push((created, updated));
        i += 1;
    }
    proof {
        assert(rows@.subrange(0, rows@.len() as int) =~= rows@);
    }
    ColumnMetrics { max_created_width, max_updated_width, labels }
}

} // verus!
