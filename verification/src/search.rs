//! The in-memory side of the search subsystem: the record filter, the
//! paginated query over loaded records, and the row set a full index rebuild
//! writes. The database itself lives outside; its rows are planned here.

use vstd::prelude::*;
use vstd::string::{StringExecFns, StrSliceExecFns};
use crate::clock::now_rfc3339;
use crate::dates::{extract_day, sanitize_date_filter, valid_date_seq};
use crate::records::{clone_record, normalize_record_type, opt_v, Record, RecordV, canon_rtype};
use crate::store::{or_else, rec_views};
use crate::text::{
    chars_vec, contains_chars, contains_seq, lower_chars, lower_seq, string_from_chars,
    trim_chars, trimmed,
};
use crate::util::{join_sep, join_with, lex_cmp, lex_cmp_chars, strs};

verus! {

/// The ten-character day of a timestamp, or empty when it has none.
pub open spec fn day_of(created_at: Seq<char>) -> Seq<char> {
    if created_at.len() >= 10 && valid_date_seq(created_at.subrange(0, 10)) {
        created_at.subrange(0, 10)
    } else {
        Seq::empty()
    }
}

fn day_or_empty(created_at: &str) -> (r: String)
    ensures
        r@ == day_of(created_at@),
{
    match extract_day(created_at) {
        Some(d) => d,
        None => String::new(),
    }
}

/// The text a free-text query is matched against.
pub open spec fn haystack_of(rv: RecordV) -> Seq<char> {
    lower_seq(rv.title + " "@ + rv.final_body + " "@ + rv.source_text + " "@ + join_sep(rv.tags, " "@))
}

/// Whether a record passes the type filter, the day range and the (already
/// lowered) free-text query.
pub open spec fn record_matches(
    rv: RecordV,
    lowered_query: Seq<char>,
    record_type: Option<Seq<char>>,
    date_from: Option<Seq<char>>,
    date_to: Option<Seq<char>>,
) -> bool {
    &&& (match record_type {
        Some(t) => rv.record_type == t,
        None => true,
    })
    &&& (match date_from {
        Some(f) => lex_cmp(day_of(rv.created_at), f) >= 0,
        None => true,
    })
    &&& (match date_to {
        Some(t) => lex_cmp(day_of(rv.created_at), t) <= 0,
        None => true,
    })
    &&& (lowered_query.len() == 0 || contains_seq(haystack_of(rv), lowered_query))
}

/// Applies the record filter to one record.
pub fn matches_record(
    record: &Record,
    lowered_query: &str,
    record_type: Option<&str>,
    date_from: Option<&str>,
    date_to: Option<&str>,
) -> (r: bool)
    ensures
        r == record_matches(
            record@,
            lowered_query@,
            (match record_type {
                Some(t) => Some(t@),
                None => None,
            }),
            (match date_from {
                Some(f) => Some(f@),
                None => None,
            }),
            (match date_to {
                Some(t) => Some(t@),
                None => None,
            }),
        ),
{
    match record_type {
        Some(t) => {
            let a = chars_vec(record.record_type.as_str());
            let b = chars_vec(t);
            if !crate::text::chars_eq(&a, &b) {
                return false;
            }
        },
        None => {},
    }
    match date_from {
        Some(f) => {
            let day = day_or_empty(record.created_at.as_str());
            let dv = chars_vec(day.as_str());
            let fv = chars_vec(f);
            if lex_cmp_chars(&dv, &fv) < 0 {
                return false;
            }
        },
        None => {},
    }
    match date_to {
        Some(t) => {
            let day = day_or_empty(record.created_at.as_str());
            let dv = chars_vec(day.as_str());
            let tv = chars_vec(t);
            if lex_cmp_chars(&dv, &tv) > 0 {
                return false;
            }
        },
        None => {},
    }
    let q = chars_vec(lowered_query);
    if q.len() == 0 {
        return true;
    }
    let mut text = chars_vec(record.title.as_str());
    text.push(' ');
    let fb = chars_vec(record.final_body.as_str());
    push_chars(&mut text, &fb);
    text.push(' ');
    let st = chars_vec(record.source_text.as_str());
    push_chars(&mut text, &st);
    text.push(' ');
    let tj = join_with(&record.tags, " ");
    let tjv = chars_vec(tj.as_str());
    push_chars(&mut text, &tjv);
    let lowered = lower_chars(&text);
    proof {
        reveal_strlit(" ");
        assert(text@ =~= record@.title + " "@ + record@.final_body + " "@ + record@.source_text
            + " "@ + join_sep(record@.tags, " "@));
    }
    contains_chars(&lowered, &q)
}

fn push_chars(out: &mut Vec<char>, add: &Vec<char>)
    ensures
        final(out)@ == old(out)@ + add@,
{
    let ghost pre = out@;
    let mut i: usize = 0;
    while i < add.len()
        invariant
            i <= add.len(),
            out@ == pre + add@.subrange(0, i as int),
        decreases add.len() - i,
    {
        out.push(add[i]);
        i = i + 1;
        proof {
            assert(out@ =~= pre + add@.subrange(0, i as int));
        }
    }
    proof {
        assert(add@.subrange(0, add@.len() as int) =~= add@);
    }
}

/// The records that pass the filter, in their incoming order.
pub open spec fn filtered_views(
    rs: Seq<RecordV>,
    lowered_query: Seq<char>,
    record_type: Option<Seq<char>>,
    date_from: Option<Seq<char>>,
    date_to: Option<Seq<char>>,
) -> Seq<RecordV> {
    rs.filter(|rv: RecordV| record_matches(rv, lowered_query, record_type, date_from, date_to))
}

proof fn lemma_filtered_push(
    rs: Seq<RecordV>,
    x: RecordV,
    q: Seq<char>,
    rt: Option<Seq<char>>,
    df: Option<Seq<char>>,
    dt: Option<Seq<char>>,
)
    ensures
        filtered_views(rs.push(x), q, rt, df, dt) == (if record_matches(x, q, rt, df, dt) {
            filtered_views(rs, q, rt, df, dt).push(x)
        } else {
            filtered_views(rs, q, rt, df, dt)
        }),
{
    reveal_with_fuel(Seq::filter, 2);
    assert(rs.push(x).drop_last() =~= rs);
    assert(rs.push(x).last() == x);
}

pub open spec fn opt_str_v(o: Option<&str>) -> Option<Seq<char>> {
    match o {
        Some(s) => Some(s@),
        None => None,
    }
}

fn collect_matches(
    records: &Vec<Record>,
    lowered_query: &str,
    record_type: Option<&str>,
    date_from: Option<&str>,
    date_to: Option<&str>,
) -> (r: Vec<Record>)
    ensures
        rec_views(r@) == filtered_views(
            rec_views(records@),
            lowered_query@,
            opt_str_v(record_type),
            opt_str_v(date_from),
            opt_str_v(date_to),
        ),
{
    let ghost q = lowered_query@;
    let ghost rt = opt_str_v(record_type);
    let ghost df = opt_str_v(date_from);
    let ghost dt = opt_str_v(date_to);
    let mut out: Vec<Record> = Vec::new();
    let mut i: usize = 0;
    proof {
        assert(rec_views(records@.subrange(0, 0)) =~= Seq::<RecordV>::empty());
        assert(filtered_views(Seq::<RecordV>::empty(), q, rt, df, dt) =~= Seq::<RecordV>::empty());
        assert(rec_views(out@) =~= Seq::<RecordV>::empty());
    }
    while i < records.len()
        invariant
            i <= records.len(),
            q == lowered_query@,
            rt == opt_str_v(record_type),
            df == opt_str_v(date_from),
            dt == opt_str_v(date_to),
            rec_views(out@) == filtered_views(rec_views(records@.subrange(0, i as int)), q, rt, df, dt),
        decreases records.len() - i,
    {
        let ghost pre_views = rec_views(records@.subrange(0, i as int));
        let hit = matches_record(&records[i], lowered_query, record_type, date_from, date_to);
        if hit {
            let ghost pre_out = out@;
            let c = clone_record(&records[i]);
            out.push(c);
            proof {
                lemma_rec_views_push_local(pre_out, out@.last());
            }
        }
        i = i + 1;
        proof {
            assert(records@.subrange(0, i as int) =~= records@.subrange(0, i - 1).push(
                records@[i - 1],
            ));
            lemma_rec_views_push_local(records@.subrange(0, i - 1), records@[i - 1]);
            assert(rec_views(records@.subrange(0, i as int)) == pre_views.push(records@[i - 1]@));
            lemma_filtered_push(pre_views, records@[i - 1]@, q, rt, df, dt);
        }
    }
    proof {
        assert(records@.subrange(0, records@.len() as int) =~= records@);
    }
    out
}

proof fn lemma_rec_views_push_local(s: Seq<Record>, x: Record)
    ensures
        rec_views(s.push(x)) == rec_views(s).push(x@),
{
    assert(rec_views(s.push(x)) =~= rec_views(s).push(x@));
}

/// The page of the filtered records that `offset` and `limit` select.
pub open spec fn page_of(f: Seq<RecordV>, offset: nat, limit: nat) -> Seq<RecordV> {
    let lo = if offset > f.len() {
        f.len() as int
    } else {
        offset as int
    };
    let hi = if offset + limit > f.len() {
        f.len() as int
    } else {
        (offset + limit) as int
    };
    f.subrange(lo, hi)
}

/// Filters and pages records in memory.
pub fn search_records_in_memory(
    records: &Vec<Record>,
    query: &str,
    record_type: Option<&str>,
    date_from: Option<&str>,
    date_to: Option<&str>,
    limit: usize,
    offset: usize,
) -> (r: Vec<Record>)
    ensures
        rec_views(r@) == page_of(
            filtered_views(
                rec_views(records@),
                lower_seq(trimmed(query@)),
                opt_str_v(record_type),
                opt_str_v(date_from),
                opt_str_v(date_to),
            ),
            offset as nat,
            limit as nat,
        ),
{
    let qv = chars_vec(query);
    let qt = trim_chars(&qv);
    let ql = lower_chars(&qt);
    let lowered = string_from_chars(&ql);
    let all = collect_matches(records, lowered.as_str(), record_type, date_from, date_to);
    let lo = if offset > all.len() {
        all.len()
    } else {
        offset
    };
    let hi = if limit > all.len() - lo {
        all.len()
    } else {
        lo + limit
    };
    let mut out: Vec<Record> = Vec::new();
    let mut i: usize = lo;
    proof {
        assert(rec_views(out@) =~= Seq::<RecordV>::empty());
    }
    while i < hi
        invariant
            lo <= i <= hi <= all.len(),
            lo <= all.len(),
            rec_views(out@) == rec_views(all@).subrange(lo as int, i as int),
        decreases hi - i,
    {
        let ghost pre = out@;
        let c = clone_record(&all[i]);
        out.push(c);
        i = i + 1;
        proof {
            lemma_rec_views_push_local(pre, out@.last());
            assert(rec_views(out@) =~= rec_views(all@).subrange(lo as int, i as int));
        }
    }
    proof {
        assert(rec_views(out@) =~= page_of(rec_views(all@), offset as nat, limit as nat));
    }
    out
}

/// Counts the records the same filter keeps.
pub fn count_records_in_memory(
    records: &Vec<Record>,
    query: &str,
    record_type: Option<&str>,
    date_from: Option<&str>,
    date_to: Option<&str>,
) -> (r: usize)
    ensures
        r == filtered_views(
            rec_views(records@),
            lower_seq(trimmed(query@)),
            opt_str_v(record_type),
            opt_str_v(date_from),
            opt_str_v(date_to),
        ).len(),
{
    let qv = chars_vec(query);
    let qt = trim_chars(&qv);
    let ql = lower_chars(&qt);
    let lowered = string_from_chars(&ql);
    let all = collect_matches(records, lowered.as_str(), record_type, date_from, date_to);
    all.len()
}

/// The outcome of a record search.
pub struct SearchResult {
    pub records: Vec<Record>,
    pub total: usize,
    pub indexed: bool,
    pub took_ms: u64,
}

/// A non-blank query is served by the on-disk full-text index first; a blank
/// one goes straight to the records on disk.
pub fn search_uses_index(query: &str) -> (r: bool)
    ensures
        r == (trimmed(query@).len() > 0),
{
    !crate::text::is_blank(query)
}

/// The in-memory search command: clamps the page bounds, normalizes the
/// filters and serves the query from the loaded records. `indexed` is false:
/// this is the path a blank query, a missing index or an index failure takes.
pub fn search_records(
    records: &Vec<Record>,
    query: Option<String>,
    record_type: Option<String>,
    date_from: Option<String>,
    date_to: Option<String>,
    limit: Option<usize>,
    offset: Option<usize>,
) -> (r: SearchResult)
    ensures
        r.indexed == false,
        ({
            let lim = (match limit {
                Some(l) => if l < 1 {
                    1nat
                } else if l > 1000 {
                    1000nat
                } else {
                    l as nat
                },
                None => 200nat,
            });
            let off = (match offset {
                Some(o) => o as nat,
                None => 0nat,
            });
            let q = lower_seq(trimmed(or_else(opt_v(query), Seq::empty())));
            let rt = (match record_type {
                Some(t) => Some(canon_rtype(t@)),
                None => None::<Seq<char>>,
            });
            let df = sanitized_filter_v(date_from);
            let dt = sanitized_filter_v(date_to);
            let f = filtered_views(rec_views(records@), q, rt, df, dt);
            &&& r.total == f.len()
            &&& rec_views(r.records@) == page_of(f, off, lim)
            &&& (off >= f.len() ==> rec_views(r.records@).len() == 0)
            &&& rec_views(r.records@).len() <= lim
        }),
{
    let lim: usize = match limit {
        Some(l) => if l < 1 {
            1
        } else if l > 1000 {
            1000
        } else {
            l
        },
        None => 200,
    };
    let off: usize = match offset {
        Some(o) => o,
        None => 0,
    };
    let q: String = match query {
        Some(s) => s,
        None => String::new(),
    };
    let rt: Option<String> = match record_type {
        Some(t) => Some(normalize_record_type(t.as_str())),
        None => None,
    };
    let df = sanitize_date_filter(date_from);
    let dt = sanitize_date_filter(date_to);
    let rt_ref: Option<&str> = match &rt {
        Some(t) => Some(t.as_str()),
        None => None,
    };
    let df_ref: Option<&str> = match &df {
        Some(d) => Some(d.as_str()),
        None => None,
    };
    let dt_ref: Option<&str> = match &dt {
        Some(d) => Some(d.as_str()),
        None => None,
    };
    let found = search_records_in_memory(records, q.as_str(), rt_ref, df_ref, dt_ref, lim, off);
    let total = count_records_in_memory(records, q.as_str(), rt_ref, df_ref, dt_ref);
    SearchResult { records: found, total, indexed: false, took_ms: 0 }
}

/// The sanitized view of a date filter argument.
pub open spec fn sanitized_filter_v(value: Option<String>) -> Option<Seq<char>> {
    match value {
        None => None,
        Some(s) => if valid_date_seq(trimmed(s@)) {
            Some(trimmed(s@))
        } else {
            None
        },
    }
}

/// Pages beyond the filtered total are empty.
pub proof fn lemma_page_beyond_total(f: Seq<RecordV>, offset: nat, limit: nat)
    requires
        offset >= f.len(),
    ensures
        page_of(f, offset, limit).len() == 0,
{
}

/// One row of the full-text table.
pub struct IndexRow {
    pub json_path: String,
    pub md_path: String,
    pub record_type: String,
    pub title: String,
    pub final_body: String,
    pub source_text: String,
    pub tags_joined: String,
    pub created_at: String,
    pub date: String,
    pub notion_sync_status: String,
    pub notion_page_id: String,
    pub notion_url: String,
    pub notion_error: String,
}

/// Whether a row carries exactly one record's fields, tags comma-joined and
/// absent options emptied.
pub open spec fn row_for(row: IndexRow, rv: RecordV) -> bool {
    &&& row.json_path@ == or_else(rv.json_path, Seq::empty())
    &&& row.md_path@ == or_else(rv.md_path, Seq::empty())
    &&& row.record_type@ == rv.record_type
    &&& row.title@ == rv.title
    &&& row.final_body@ == rv.final_body
    &&& row.source_text@ == rv.source_text
    &&& row.tags_joined@ == join_sep(rv.tags, ","@)
    &&& row.created_at@ == rv.created_at
    &&& row.date@ == or_else(rv.date, Seq::empty())
    &&& row.notion_sync_status@ == rv.notion_sync_status
    &&& row.notion_page_id@ == or_else(rv.notion_page_id, Seq::empty())
    &&& row.notion_url@ == or_else(rv.notion_url, Seq::empty())
    &&& row.notion_error@ == or_else(rv.notion_error, Seq::empty())
}

/// Builds the full-text row for one record.
pub fn index_row_for_record(record: &Record) -> (row: IndexRow)
    ensures
        row_for(row, record@),
{
    IndexRow {
        json_path: crate::store::unwrap_or_empty(&record.json_path),
        md_path: crate::store::unwrap_or_empty(&record.md_path),
        record_type: record.record_type.clone(),
        title: record.title.clone(),
        final_body: record.final_body.clone(),
        source_text: record.source_text.clone(),
        tags_joined: join_with(&record.tags, ","),
        created_at: record.created_at.clone(),
        date: crate::store::unwrap_or_empty(&record.date),
        notion_sync_status: record.notion_sync_status.clone(),
        notion_page_id: crate::store::unwrap_or_empty(&record.notion_page_id),
        notion_url: crate::store::unwrap_or_empty(&record.notion_url),
        notion_error: crate::store::unwrap_or_empty(&record.notion_error),
    }
}

/// Everything a full index rebuild writes: one row per record, and the two
/// meta entries.
pub struct RebuildPlan {
    pub rows: Vec<IndexRow>,
    pub record_count: usize,
    pub updated_at: String,
}

/// Plans a full rebuild of the search index: the row set mirrors the given
/// records one for one, and the meta record count equals their number.
pub fn rebuild_search_index(records: &Vec<Record>) -> (r: RebuildPlan)
    ensures
        r.rows@.len() == records@.len(),
        r.record_count == records@.len(),
        forall|i: int| 0 <= i < records@.len() ==> row_for(#[trigger] r.rows@[i], records@[i]@),
        r.updated_at@.len() > 0,
{
    let mut rows: Vec<IndexRow> = Vec::new();
    let mut i: usize = 0;
    while i < records.len()
        invariant
            i <= records.len(),
            rows@.len() == i,
            forall|k: int| 0 <= k < i ==> row_for(#[trigger] rows@[k], records@[k]@),
        decreases records.len() - i,
    {
        rows.push(index_row_for_record(&records[i]));
        i = i + 1;
    }
    let updated_at = now_rfc3339();
    RebuildPlan { rows, record_count: records.len(), updated_at }
}

} // verus!
