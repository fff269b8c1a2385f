//! The record store's logic: structured documents and their round trip,
//! loading and ordering of records, and the planning of upserts and deletes.
//! The caller performs the actual reads and writes and hands the contents in
//! as plain values.

use vstd::prelude::*;
use vstd::string::{StringExecFns, StrSliceExecFns};
use crate::clock::now_rfc3339;
use crate::records::{
    canon_rtype, clone_opt, clone_record, clone_strings, dir_of_type, emoji_of, filename_seq,
    generate_filename, is_canon_type, lemma_canon_fixed, md_of, normalize_record_type, opt_v,
    record_dir_by_type, render_markdown, Record, RecordV,
};
use crate::paths::{joined, last_component, path_join, path_with_ext, rfind_idx, with_ext};
use crate::text::{chars_vec, is_blank, string_from_chars, trimmed};
use crate::util::{copy_range, lex_cmp, lemma_lex_cmp_antisym, strs};
use vstd::multiset::Multiset;

verus! {

/// What a structured record file holds, key for key.
pub struct RecordDoc {
    pub record_type: Option<String>,
    pub title: Option<String>,
    pub created_at: Option<String>,
    pub source_text: Option<String>,
    pub final_body: Option<String>,
    pub tags: Vec<String>,
    pub date: Option<String>,
    pub notion_page_id: Option<String>,
    pub notion_url: Option<String>,
    pub notion_sync_status: Option<String>,
    pub notion_error: Option<String>,
    pub notion_last_synced_at: Option<String>,
    pub notion_last_edited_time: Option<String>,
    pub notion_last_synced_hash: Option<String>,
}

#[verifier::ext_equal]
pub ghost struct RecordDocV {
    pub record_type: Option<Seq<char>>,
    pub title: Option<Seq<char>>,
    pub created_at: Option<Seq<char>>,
    pub source_text: Option<Seq<char>>,
    pub final_body: Option<Seq<char>>,
    pub tags: Seq<Seq<char>>,
    pub date: Option<Seq<char>>,
    pub notion_page_id: Option<Seq<char>>,
    pub notion_url: Option<Seq<char>>,
    pub notion_sync_status: Option<Seq<char>>,
    pub notion_error: Option<Seq<char>>,
    pub notion_last_synced_at: Option<Seq<char>>,
    pub notion_last_edited_time: Option<Seq<char>>,
    pub notion_last_synced_hash: Option<Seq<char>>,
}

impl View for RecordDoc {
    type V = RecordDocV;

    open spec fn view(&self) -> RecordDocV {
        RecordDocV {
            record_type: opt_v(self.record_type),
            title: opt_v(self.title),
            created_at: opt_v(self.created_at),
            source_text: opt_v(self.source_text),
            final_body: opt_v(self.final_body),
            tags: strs(self.tags@),
            date: opt_v(self.date),
            notion_page_id: opt_v(self.notion_page_id),
            notion_url: opt_v(self.notion_url),
            notion_sync_status: opt_v(self.notion_sync_status),
            notion_error: opt_v(self.notion_error),
            notion_last_synced_at: opt_v(self.notion_last_synced_at),
            notion_last_edited_time: opt_v(self.notion_last_edited_time),
            notion_last_synced_hash: opt_v(self.notion_last_synced_hash),
        }
    }
}

pub open spec fn or_else(o: Option<Seq<char>>, d: Seq<char>) -> Seq<char> {
    match o {
        Some(s) => s,
        None => d,
    }
}

/// The record a structured document denotes: missing keys filled with their
/// defaults, the type canonicalized (falling back to the directory's type),
/// a missing creation time replaced by the file's modification time.
pub open spec fn record_of_doc(
    d: RecordDocV,
    json_path: Option<Seq<char>>,
    md_path: Option<Seq<char>>,
    fallback_type: Option<Seq<char>>,
    fallback_created: Seq<char>,
) -> RecordV {
    RecordV {
        record_type: canon_rtype(or_else(d.record_type, or_else(fallback_type, "note"@))),
        title: or_else(d.title, "Untitled"@),
        created_at: or_else(d.created_at, fallback_created),
        source_text: or_else(d.source_text, Seq::empty()),
        final_body: or_else(d.final_body, Seq::empty()),
        tags: d.tags,
        date: d.date,
        notion_page_id: d.notion_page_id,
        notion_url: d.notion_url,
        notion_sync_status: or_else(d.notion_sync_status, "SUCCESS"@),
        notion_error: d.notion_error,
        notion_last_synced_at: d.notion_last_synced_at,
        notion_last_edited_time: d.notion_last_edited_time,
        notion_last_synced_hash: d.notion_last_synced_hash,
        json_path,
        md_path,
    }
}

fn unwrap_or_str(o: &Option<String>, d: &str) -> (r: String)
    ensures
        r@ == or_else(opt_v(*o), d@),
{
    match o {
        Some(s) => s.clone(),
        None => String::from_str(d),
    }
}

/// Builds a record from a structured document.
pub fn record_from_doc(
    doc: &RecordDoc,
    json_path: Option<String>,
    md_path: Option<String>,
    fallback_type: Option<String>,
    fallback_created_at: &str,
) -> (r: Record)
    ensures
        r@ == record_of_doc(
            doc@,
            opt_v(json_path),
            opt_v(md_path),
            opt_v(fallback_type),
            fallback_created_at@,
        ),
{
    let chosen_type: String = match &doc.record_type {
        Some(t) => t.clone(),
        None => match &fallback_type {
            Some(f) => f.clone(),
            None => String::from_str("note"),
        },
    };
    let record_type = normalize_record_type(chosen_type.as_str());
    let r = Record {
        record_type,
        title: unwrap_or_str(&doc.title, "Untitled"),
        created_at: unwrap_or_str(&doc.created_at, fallback_created_at),
        source_text: unwrap_or_str(&doc.source_text, ""),
        final_body: unwrap_or_str(&doc.final_body, ""),
        tags: clone_strings(&doc.tags),
        date: clone_opt(&doc.date),
        notion_page_id: clone_opt(&doc.notion_page_id),
        notion_url: clone_opt(&doc.notion_url),
        notion_sync_status: unwrap_or_str(&doc.notion_sync_status, "SUCCESS"),
        notion_error: clone_opt(&doc.notion_error),
        notion_last_synced_at: clone_opt(&doc.notion_last_synced_at),
        notion_last_edited_time: clone_opt(&doc.notion_last_edited_time),
        notion_last_synced_hash: clone_opt(&doc.notion_last_synced_hash),
        json_path,
        md_path,
    };
    proof {
        reveal_strlit("");
        assert(""@ =~= Seq::<char>::empty());
        assert(r@ =~= record_of_doc(
            doc@,
            opt_v(r.json_path),
            opt_v(r.md_path),
            opt_v(fallback_type),
            fallback_created_at@,
        ));
    }
    r
}

/// The structured document that persists a record.
pub open spec fn doc_of_record(r: RecordV) -> RecordDocV {
    RecordDocV {
        record_type: Some(r.record_type),
        title: Some(r.title),
        created_at: Some(r.created_at),
        source_text: Some(r.source_text),
        final_body: Some(r.final_body),
        tags: r.tags,
        date: r.date,
        notion_page_id: r.notion_page_id,
        notion_url: r.notion_url,
        notion_sync_status: Some(r.notion_sync_status),
        notion_error: r.notion_error,
        notion_last_synced_at: r.notion_last_synced_at,
        notion_last_edited_time: r.notion_last_edited_time,
        notion_last_synced_hash: r.notion_last_synced_hash,
    }
}

/// Turns a record into the document written to its structured file.
pub fn record_to_doc(r: &Record) -> (d: RecordDoc)
    ensures
        d@ == doc_of_record(r@),
{
    let d = RecordDoc {
        record_type: Some(r.record_type.clone()),
        title: Some(r.title.clone()),
        created_at: Some(r.created_at.clone()),
        source_text: Some(r.source_text.clone()),
        final_body: Some(r.final_body.clone()),
        tags: clone_strings(&r.tags),
        date: clone_opt(&r.date),
        notion_page_id: clone_opt(&r.notion_page_id),
        notion_url: clone_opt(&r.notion_url),
        notion_sync_status: Some(r.notion_sync_status.clone()),
        notion_error: clone_opt(&r.notion_error),
        notion_last_synced_at: clone_opt(&r.notion_last_synced_at),
        notion_last_edited_time: clone_opt(&r.notion_last_edited_time),
        notion_last_synced_hash: clone_opt(&r.notion_last_synced_hash),
    };
    proof {
        assert(d@ =~= doc_of_record(r@));
    }
    d
}

/// Persisting a record and loading it back yields the same record, up to the
/// path fields the loader fills in.
pub proof fn lemma_record_doc_roundtrip(
    r: RecordV,
    json_path: Option<Seq<char>>,
    md_path: Option<Seq<char>>,
    fallback_type: Option<Seq<char>>,
    fallback_created: Seq<char>,
)
    requires
        is_canon_type(r.record_type),
    ensures
        record_of_doc(doc_of_record(r), json_path, md_path, fallback_type, fallback_created) == (
        RecordV { json_path, md_path, ..r }),
{
    lemma_canon_fixed(r.record_type);
    assert(record_of_doc(doc_of_record(r), json_path, md_path, fallback_type, fallback_created)
        =~= RecordV { json_path, md_path, ..r });
}

/// A structured record file as found on disk, with the facts the loader knows
/// about it: where it lay, which type directory held it, and its modification
/// time as a fallback creation time.
pub struct LoadedRecordFile {
    pub doc: RecordDoc,
    pub json_path: String,
    pub md_path: String,
    pub dir_type: String,
    pub mtime_iso: String,
}

/// The record one loaded file denotes.
pub open spec fn loaded_record_of(f: LoadedRecordFile) -> RecordV {
    record_of_doc(
        f.doc@,
        Some(f.json_path@),
        Some(f.md_path@),
        Some(f.dir_type@),
        f.mtime_iso@,
    )
}

pub open spec fn rec_views(s: Seq<Record>) -> Seq<RecordV> {
    s.map_values(|x: Record| x@)
}

pub open spec fn loaded_views(s: Seq<LoadedRecordFile>) -> Seq<RecordV> {
    s.map_values(|f: LoadedRecordFile| loaded_record_of(f))
}

/// Newest first: creation timestamps never increase along the sequence.
pub open spec fn sorted_desc(s: Seq<RecordV>) -> bool {
    forall|i: int, j: int|
        0 <= i <= j < s.len() ==> lex_cmp(#[trigger] s[i].created_at, #[trigger] s[j].created_at)
            >= 0
}

proof fn lemma_rec_views_push(s: Seq<Record>, x: Record)
    ensures
        rec_views(s.push(x)) == rec_views(s).push(x@),
{
    assert(rec_views(s.push(x)) =~= rec_views(s).push(x@));
}

proof fn lemma_rec_views_remove(s: Seq<Record>, i: int)
    requires
        0 <= i < s.len(),
    ensures
        rec_views(s.remove(i)) == rec_views(s).remove(i),
{
    assert(rec_views(s.remove(i)) =~= rec_views(s).remove(i));
}

proof fn lemma_loaded_views_push(s: Seq<LoadedRecordFile>, x: LoadedRecordFile)
    ensures
        loaded_views(s.push(x)) == loaded_views(s).push(loaded_record_of(x)),
{
    assert(loaded_views(s.push(x)) =~= loaded_views(s).push(loaded_record_of(x)));
}

fn max_created_index(v: &Vec<Record>) -> (r: usize)
    requires
        v.len() > 0,
    ensures
        r < v.len(),
        forall|k: int|
            0 <= k < v.len() ==> lex_cmp(
                rec_views(v@)[r as int].created_at,
                #[trigger] rec_views(v@)[k].created_at,
            ) >= 0,
{
    let mut best: usize = 0;
    let mut j: usize = 1;
    proof {
        lemma_lex_cmp_antisym(v@[0]@.created_at, v@[0]@.created_at);
        assert(rec_views(v@)[0] == v@[0]@);
    }
    while j < v.len()
        invariant
            v.len() > 0,
            best < v.len(),
            1 <= j,
            forall|k: int|
                0 <= k < j && k < v.len() ==> lex_cmp(
                    rec_views(v@)[best as int].created_at,
                    #[trigger] rec_views(v@)[k].created_at,
                ) >= 0,
        decreases v.len() - j,
    {
        let a = chars_vec(v[j].created_at.as_str());
        let b = chars_vec(v[best].created_at.as_str());
        let c = crate::util::lex_cmp_chars(&a, &b);
        proof {
            assert(rec_views(v@)[j as int] == v@[j as int]@);
            assert(rec_views(v@)[best as int] == v@[best as int]@);
        }
        if c > 0 {
            let ghost ob = best as int;
            best = j;
            proof {
                assert forall|k: int| 0 <= k < j implies lex_cmp(
                    rec_views(v@)[best as int].created_at,
                    #[trigger] rec_views(v@)[k].created_at,
                ) >= 0 by {
                    let sj = rec_views(v@)[j as int].created_at;
                    let sb = rec_views(v@)[ob].created_at;
                    let sk = rec_views(v@)[k].created_at;
                    lemma_lex_cmp_antisym(sj, sb);
                    lemma_lex_cmp_antisym(sb, sk);
                    crate::util::lemma_lex_cmp_trans(sk, sb, sj);
                    lemma_lex_cmp_antisym(sk, sj);
                }
                lemma_lex_cmp_antisym(
                    rec_views(v@)[j as int].created_at,
                    rec_views(v@)[j as int].created_at,
                );
            }
        } else {
            proof {
                lemma_lex_cmp_antisym(
                    rec_views(v@)[j as int].created_at,
                    rec_views(v@)[best as int].created_at,
                );
            }
        }
        j = j + 1;
    }
    best
}

/// Converts the loaded record files and orders them newest first by their
/// creation timestamps.
pub fn list_records(files: Vec<LoadedRecordFile>) -> (r: Vec<Record>)
    ensures
        rec_views(r@).to_multiset() == loaded_views(files@).to_multiset(),
        sorted_desc(rec_views(r@)),
        forall|i: int| 0 <= i < r@.len() ==> is_canon_type(#[trigger] rec_views(r@)[i].record_type),
{
    broadcast use vstd::seq_lib::group_to_multiset_ensures;

    let mut pending: Vec<Record> = Vec::new();
    let mut i: usize = 0;
    while i < files.len()
        invariant
            i <= files.len(),
            rec_views(pending@) == loaded_views(files@.subrange(0, i as int)),
        decreases files.len() - i,
    {
        let f = &files[i];
        let doc_copy = clone_doc(&f.doc);
        let rec = record_from_doc(
            &doc_copy,
            Some(f.json_path.clone()),
            Some(f.md_path.clone()),
            Some(f.dir_type.clone()),
            f.mtime_iso.as_str(),
        );
        let ghost pre = pending@;
        pending.push(rec);
        i = i + 1;
        proof {
            lemma_rec_views_push(pre, pending@.last());
            assert(files@.subrange(0, i as int) =~= files@.subrange(0, i - 1).push(files@[i - 1]));
            lemma_loaded_views_push(files@.subrange(0, i - 1), files@[i - 1]);
            assert(pending@.last()@ == loaded_record_of(files@[i - 1]));
            assert(rec_views(pending@) =~= loaded_views(files@.subrange(0, i as int)));
        }
    }
    proof {
        assert(files@.subrange(0, files@.len() as int) =~= files@);
        assert(forall|k: int|
            0 <= k < pending@.len() ==> is_canon_type(
                #[trigger] rec_views(pending@)[k].record_type,
            )) by {
            crate::records::lemma_canon_is_canon(Seq::<char>::empty());
        }
    }
    let ghost all = loaded_views(files@);
    let mut out: Vec<Record> = Vec::new();
    while pending.len() > 0
        invariant
            rec_views(out@).to_multiset().add(rec_views(pending@).to_multiset())
                == all.to_multiset(),
            sorted_desc(rec_views(out@)),
            forall|a: int, b: int|
                0 <= a < out@.len() && 0 <= b < pending@.len() ==> lex_cmp(
                    #[trigger] rec_views(out@)[a].created_at,
                    #[trigger] rec_views(pending@)[b].created_at,
                ) >= 0,
            forall|k: int|
                0 <= k < out@.len() ==> is_canon_type(#[trigger] rec_views(out@)[k].record_type),
            forall|k: int|
                0 <= k < pending@.len() ==> is_canon_type(
                    #[trigger] rec_views(pending@)[k].record_type,
                ),
        decreases pending.len(),
    {
        broadcast use vstd::seq_lib::group_to_multiset_ensures;

        let mi = max_created_index(&pending);
        let ghost pseq = pending@;
        let ghost pv = rec_views(pending@);
        let ghost oseq = out@;
        let ghost ov = rec_views(out@);
        let x = pending.remove(mi);
        out.push(x);
        proof {
            lemma_rec_views_remove(pseq, mi as int);
            lemma_rec_views_push(oseq, x);
            assert(rec_views(pending@) == pv.remove(mi as int));
            assert(rec_views(out@) == ov.push(x@));
            assert(x@ == pv[mi as int]);
            assert(rec_views(out@).to_multiset().add(rec_views(pending@).to_multiset()) =~= ov
                .to_multiset().add(pv.to_multiset()));
            assert forall|a2: int, b2: int|
                0 <= a2 < out@.len() && 0 <= b2 < pending@.len() implies lex_cmp(
                #[trigger] rec_views(out@)[a2].created_at,
                #[trigger] rec_views(pending@)[b2].created_at,
            ) >= 0 by {
                let nb: int = if b2 < mi as int {
                    b2
                } else {
                    b2 + 1
                };
                assert(rec_views(pending@)[b2] == pv[nb]);
                if a2 < oseq.len() {
                    assert(rec_views(out@)[a2] == ov[a2]);
                } else {
                    assert(rec_views(out@)[a2] == pv[mi as int]);
                }
            }
            assert forall|i2: int, j2: int|
                0 <= i2 <= j2 < rec_views(out@).len() implies lex_cmp(
                #[trigger] rec_views(out@)[i2].created_at,
                #[trigger] rec_views(out@)[j2].created_at,
            ) >= 0 by {
                if j2 < oseq.len() {
                    assert(rec_views(out@)[i2] == ov[i2]);
                    assert(rec_views(out@)[j2] == ov[j2]);
                } else {
                    assert(rec_views(out@)[j2] == pv[mi as int]);
                    if i2 < oseq.len() {
                        assert(rec_views(out@)[i2] == ov[i2]);
                    } else {
                        assert(rec_views(out@)[i2] == pv[mi as int]);
                        lemma_lex_cmp_antisym(pv[mi as int].created_at, pv[mi as int].created_at);
                    }
                }
            }
            assert forall|k: int| 0 <= k < out@.len() implies is_canon_type(
                #[trigger] rec_views(out@)[k].record_type,
            ) by {
                if k < oseq.len() {
                    assert(rec_views(out@)[k] == ov[k]);
                } else {
                    assert(rec_views(out@)[k] == pv[mi as int]);
                }
            }
            assert forall|k: int| 0 <= k < pending@.len() implies is_canon_type(
                #[trigger] rec_views(pending@)[k].record_type,
            ) by {
                let nk: int = if k < mi as int {
                    k
                } else {
                    k + 1
                };
                assert(rec_views(pending@)[k] == pv[nk]);
            }
        }
    }
    proof {
        assert(rec_views(pending@).to_multiset() =~= Multiset::<RecordV>::empty());
        assert(rec_views(out@).to_multiset() =~= all.to_multiset());
    }
    out
}

/// What the caller pins down about a record's creation or update.
pub struct RecordPayload {
    pub record_type: String,
    pub title: String,
    pub created_at: Option<String>,
    pub source_text: Option<String>,
    pub final_body: Option<String>,
    pub tags: Option<Vec<String>>,
    pub date: Option<String>,
    pub notion_page_id: Option<String>,
    pub notion_url: Option<String>,
    pub notion_sync_status: Option<String>,
    pub notion_error: Option<String>,
    pub notion_last_synced_at: Option<String>,
    pub notion_last_edited_time: Option<String>,
    pub notion_last_synced_hash: Option<String>,
}

/// What the caller knows of the record file an upsert may replace.
pub struct PriorRecordFile {
    pub json_path: String,
    pub exists: bool,
    pub doc: Option<RecordDoc>,
}

/// Every write an upsert entails: the target pair of files, the record and
/// its renderings, and the prior pair to delete when the target moved.
pub struct UpsertPlan {
    pub stem: String,
    pub json_path: String,
    pub md_path: String,
    pub record: Record,
    pub markdown: String,
    pub remove_prior: Option<String>,
}

/// The filename stem of a path: its last component up to the last dot.
pub open spec fn stem_of_path(p: Seq<char>) -> Seq<char> {
    let name = last_component(p);
    if rfind_idx(name, '.') < 0 {
        name
    } else {
        name.subrange(0, rfind_idx(name, '.'))
    }
}

/// The structured document of a usable prior file, when there is one.
pub open spec fn prior_doc_of(previous: Option<PriorRecordFile>) -> Option<RecordDocV> {
    match previous {
        Some(pf) => if pf.exists {
            match pf.doc {
                Some(d) => Some(d@),
                None => None,
            }
        } else {
            None
        },
        None => None,
    }
}

pub open spec fn carried(payload_field: Option<Seq<char>>, prior: Option<RecordDocV>, prior_field: Option<Seq<char>>) -> Option<Seq<char>> {
    match payload_field {
        Some(v) => Some(v),
        None => match prior {
            Some(_) => prior_field,
            None => None,
        },
    }
}

fn file_stem_of(p: &str) -> (r: String)
    ensures
        r@ == stem_of_path(p@),
{
    let v = chars_vec(p);
    let (_parent, name) = crate::paths::split_parent(&v);
    match crate::paths::rfind_char(&name, '.') {
        Some(d) => {
            let cut = copy_range(&name, 0, d);
            string_from_chars(&cut)
        },
        None => string_from_chars(&name),
    }
}

/// Plans one record upsert: where the two files go, what the record is, and
/// which stale pair to remove. A prior file's stem is kept while the file
/// still exists; defaults fill the missing payload fields.
#[verifier::rlimit(100)]
pub fn plan_upsert(central_home: &str, payload: RecordPayload, previous: Option<PriorRecordFile>) -> (r: UpsertPlan)
    ensures
        r.record@.record_type == canon_rtype(payload.record_type@),
        is_canon_type(r.record@.record_type),
        r.record@.title == (if trimmed(payload.title@).len() == 0 {
            "Untitled"@
        } else {
            trimmed(payload.title@)
        }),
        (match opt_v(payload.created_at) {
            Some(c) => r.record@.created_at == c,
            None => r.record@.created_at.len() > 0,
        }),
        r.record@.source_text == or_else(opt_v(payload.source_text), Seq::empty()),
        r.record@.final_body == or_else(opt_v(payload.final_body), Seq::empty()),
        r.record@.tags == (match payload.tags {
            Some(t) => strs(t@),
            None => Seq::<Seq<char>>::empty(),
        }),
        r.record@.date == opt_v(payload.date),
        r.record@.notion_page_id == opt_v(payload.notion_page_id),
        r.record@.notion_url == opt_v(payload.notion_url),
        r.record@.notion_sync_status == or_else(opt_v(payload.notion_sync_status), "SUCCESS"@),
        r.record@.notion_error == opt_v(payload.notion_error),
        r.record@.notion_last_synced_at == carried(
            opt_v(payload.notion_last_synced_at),
            prior_doc_of(previous),
            (match prior_doc_of(previous) {
                Some(d) => d.notion_last_synced_at,
                None => None,
            }),
        ),
        r.record@.notion_last_edited_time == carried(
            opt_v(payload.notion_last_edited_time),
            prior_doc_of(previous),
            (match prior_doc_of(previous) {
                Some(d) => d.notion_last_edited_time,
                None => None,
            }),
        ),
        r.record@.notion_last_synced_hash == carried(
            opt_v(payload.notion_last_synced_hash),
            prior_doc_of(previous),
            (match prior_doc_of(previous) {
                Some(d) => d.notion_last_synced_hash,
                None => None,
            }),
        ),
        r.json_path@ == joined(
            joined(joined(central_home@, "records"@), dir_of_type(r.record@.record_type)),
            r.stem@ + ".json"@,
        ),
        r.md_path@ == joined(
            joined(joined(central_home@, "records"@), dir_of_type(r.record@.record_type)),
            r.stem@ + ".md"@,
        ),
        r.record@.json_path == Some(r.json_path@),
        r.record@.md_path == Some(r.md_path@),
        r.markdown@ == md_of(r.record@),
        (match previous {
            Some(pf) => {
                &&& (pf.exists ==> r.stem@ == stem_of_path(pf.json_path@))
                &&& opt_v(r.remove_prior) == (if pf.json_path@ != r.json_path@ {
                    Some(pf.json_path@)
                } else {
                    None::<Seq<char>>
                })
            },
            None => r.remove_prior is None,
        }),
{
    let record_type = normalize_record_type(payload.record_type.as_str());
    let title = if is_blank(payload.title.as_str()) {
        String::from_str("Untitled")
    } else {
        crate::text::trim_str(payload.title.as_str())
    };
    let created_at = match &payload.created_at {
        Some(c) => c.clone(),
        None => {
            let n = now_rfc3339();
            n
        },
    };
    let stem = match &previous {
        Some(pf) => if pf.exists {
            file_stem_of(pf.json_path.as_str())
        } else {
            generate_filename(record_type.as_str(), title.as_str())
        },
        None => generate_filename(record_type.as_str(), title.as_str()),
    };
    let dir = path_join(
        path_join(central_home, "records").as_str(),
        record_dir_by_type(record_type.as_str()),
    );
    let json_name = stem.clone().concat(".json");
    let md_name = stem.clone().concat(".md");
    let json_path = path_join(dir.as_str(), json_name.as_str());
    let md_path = path_join(dir.as_str(), md_name.as_str());
    let prior_synced_at: Option<String> = prior_field_synced_at(&payload, &previous);
    let prior_edited: Option<String> = prior_field_edited(&payload, &previous);
    let prior_hash: Option<String> = prior_field_hash(&payload, &previous);
    let record = Record {
        record_type,
        title,
        created_at,
        source_text: unwrap_or_str(&payload.source_text, ""),
        final_body: unwrap_or_str(&payload.final_body, ""),
        tags: (match &payload.tags {
            Some(t) => clone_strings(t),
            None => Vec::new(),
        }),
        date: clone_opt(&payload.date),
        notion_page_id: clone_opt(&payload.notion_page_id),
        notion_url: clone_opt(&payload.notion_url),
        notion_sync_status: unwrap_or_str(&payload.notion_sync_status, "SUCCESS"),
        notion_error: clone_opt(&payload.notion_error),
        notion_last_synced_at: prior_synced_at,
        notion_last_edited_time: prior_edited,
        notion_last_synced_hash: prior_hash,
        json_path: Some(json_path.clone()),
        md_path: Some(md_path.clone()),
    };
    let markdown = render_markdown(&record);
    let remove_prior = match &previous {
        Some(pf) => {
            let a = chars_vec(pf.json_path.as_str());
            let b = chars_vec(json_path.as_str());
            if !crate::text::chars_eq(&a, &b) {
                Some(pf.json_path.clone())
            } else {
                None
            }
        },
        None => None,
    };
    proof {
        reveal_strlit("");
        assert(""@ =~= Seq::<char>::empty());
        assert(Seq::<String>::empty().map_values(|s: String| s@) =~= Seq::<Seq<char>>::empty());
    }
    UpsertPlan { stem, json_path, md_path, record, markdown, remove_prior }
}

fn prior_field_synced_at(payload: &RecordPayload, previous: &Option<PriorRecordFile>) -> (r: Option<String>)
    ensures
        opt_v(r) == carried(
            opt_v(payload.notion_last_synced_at),
            prior_doc_of(*previous),
            (match prior_doc_of(*previous) {
                Some(d) => d.notion_last_synced_at,
                None => None,
            }),
        ),
{
    match &payload.notion_last_synced_at {
        Some(v) => Some(v.clone()),
        None => match previous {
            Some(pf) => if pf.exists {
                match &pf.doc {
                    Some(d) => clone_opt(&d.notion_last_synced_at),
                    None => None,
                }
            } else {
                None
            },
            None => None,
        },
    }
}

fn prior_field_edited(payload: &RecordPayload, previous: &Option<PriorRecordFile>) -> (r: Option<String>)
    ensures
        opt_v(r) == carried(
            opt_v(payload.notion_last_edited_time),
            prior_doc_of(*previous),
            (match prior_doc_of(*previous) {
                Some(d) => d.notion_last_edited_time,
                None => None,
            }),
        ),
{
    match &payload.notion_last_edited_time {
        Some(v) => Some(v.clone()),
        None => match previous {
            Some(pf) => if pf.exists {
                match &pf.doc {
                    Some(d) => clone_opt(&d.notion_last_edited_time),
                    None => None,
                }
            } else {
                None
            },
            None => None,
        },
    }
}

fn prior_field_hash(payload: &RecordPayload, previous: &Option<PriorRecordFile>) -> (r: Option<String>)
    ensures
        opt_v(r) == carried(
            opt_v(payload.notion_last_synced_hash),
            prior_doc_of(*previous),
            (match prior_doc_of(*previous) {
                Some(d) => d.notion_last_synced_hash,
                None => None,
            }),
        ),
{
    match &payload.notion_last_synced_hash {
        Some(v) => Some(v.clone()),
        None => match previous {
            Some(pf) => if pf.exists {
                match &pf.doc {
                    Some(d) => clone_opt(&d.notion_last_synced_hash),
                    None => None,
                }
            } else {
                None
            },
            None => None,
        },
    }
}

/// The two files a record deletion removes: the structured file (trimmed
/// path) and its markdown twin.
pub fn delete_record_targets(json_path: &str) -> (r: (String, String))
    ensures
        r.0@ == trimmed(json_path@),
        r.1@ == with_ext(trimmed(json_path@), "md"@),
{
    let t = crate::text::trim_str(json_path);
    let md = path_with_ext(t.as_str(), "md");
    (t, md)
}

/// Maps a record-directory name back to its record type.
pub open spec fn type_of_dir(f: Seq<char>) -> Option<Seq<char>> {
    if f == "decisions"@ {
        Some("decision"@)
    } else if f == "worklogs"@ {
        Some("worklog"@)
    } else if f == "ideas"@ {
        Some("idea"@)
    } else if f == "backlogs"@ {
        Some("backlog"@)
    } else if f == "other"@ {
        Some("note"@)
    } else {
        None
    }
}

/// The record type implied by where a file sits under `records/`.
pub open spec fn inferred_type(home: Seq<char>, p: Seq<char>) -> Option<Seq<char>> {
    let prefix = joined(home, "records"@) + seq!['/'];
    if crate::text::starts_with_seq(p, prefix) {
        let rel = p.skip(prefix.len() as int);
        let k = crate::util::find_idx(rel, '/');
        let folder = if 0 <= k < rel.len() {
            rel.subrange(0, k)
        } else {
            rel
        };
        type_of_dir(folder)
    } else {
        None
    }
}

/// Infers a record's type from the type directory its file lies in.
pub fn infer_record_type_from_path(central_home: &str, path: &str) -> (r: Option<String>)
    ensures
        opt_v(r) == inferred_type(central_home@, path@),
{
    let mut prefix = chars_vec(path_join(central_home, "records").as_str());
    prefix.push('/');
    proof {
        assert(prefix@ =~= joined(central_home@, "records"@) + seq!['/']);
    }
    let pv = chars_vec(path);
    if !crate::text::starts_with_chars(&pv, &prefix) {
        return None;
    }
    let k = crate::util::find_char(&pv, prefix.len(), '/');
    let folder = copy_range(&pv, prefix.len(), k);
    proof {
        let rel = pv@.skip(prefix@.len() as int);
        crate::util::lemma_find_idx_char(rel, '/', k - prefix@.len());
        if k < pv@.len() {
            assert(folder@ =~= rel.subrange(0, k - prefix@.len()));
        } else {
            assert(folder@ =~= rel);
        }
    }
    let t: Option<&'static str> = if crate::text::chars_eq(&folder, &chars_vec("decisions")) {
        Some("decision")
    } else if crate::text::chars_eq(&folder, &chars_vec("worklogs")) {
        Some("worklog")
    } else if crate::text::chars_eq(&folder, &chars_vec("ideas")) {
        Some("idea")
    } else if crate::text::chars_eq(&folder, &chars_vec("backlogs")) {
        Some("backlog")
    } else if crate::text::chars_eq(&folder, &chars_vec("other")) {
        Some("note")
    } else {
        None
    };
    match t {
        Some(s) => Some(String::from_str(s)),
        None => None,
    }
}

/// The `idx`-th candidate path pair for a new record file: the bare stem
/// first, then numbered variants.
pub fn candidate_record_path(central_home: &str, record_type: &str, base: &str, idx: u64) -> (r: (
    String,
    String,
))
    ensures
        idx == 0 ==> r.0@ == joined(
            joined(joined(central_home@, "records"@), dir_of_type(record_type@)),
            base@ + ".json"@,
        ),
        idx > 0 ==> r.0@ == joined(
            joined(joined(central_home@, "records"@), dir_of_type(record_type@)),
            base@ + "_"@ + crate::util::dec_str(idx as nat) + ".json"@,
        ),
        r.1@ == with_ext(r.0@, "md"@),
{
    let dir = path_join(path_join(central_home, "records").as_str(), record_dir_by_type(record_type));
    let mut name = chars_vec(base);
    if idx > 0 {
        name.push('_');
        let d = crate::util::u64_dec_chars(idx);
        let mut i: usize = 0;
        let ghost pre = name@;
        while i < d.len()
            invariant
                i <= d.len(),
                name@ == pre + d@.subrange(0, i as int),
            decreases d.len() - i,
        {
            name.push(d[i]);
            i = i + 1;
            proof {
                assert(name@ =~= pre + d@.subrange(0, i as int));
            }
        }
        proof {
            assert(d@.subrange(0, d@.len() as int) =~= d@);
        }
    }
    let jn = chars_vec(".json");
    let ghost nm = name@;
    let mut j: usize = 0;
    while j < jn.len()
        invariant
            j <= jn.len(),
            name@ == nm + jn@.subrange(0, j as int),
        decreases jn.len() - j,
    {
        name.push(jn[j]);
        j = j + 1;
        proof {
            assert(name@ =~= nm + jn@.subrange(0, j as int));
        }
    }
    proof {
        assert(jn@.subrange(0, jn@.len() as int) =~= jn@);
    }
    let json_name = string_from_chars(&name);
    let json_path = path_join(dir.as_str(), json_name.as_str());
    let md_path = path_with_ext(json_path.as_str(), "md");
    proof {
        if idx > 0 {
            assert(name@ =~= base@ + "_"@ + crate::util::dec_str(idx as nat) + ".json"@) by {
                reveal_strlit("_");
            }
        } else {
            assert(name@ =~= base@ + ".json"@);
        }
    }
    (json_path, md_path)
}

/// The string of an optional field, empty when absent.
pub fn unwrap_or_empty(o: &Option<String>) -> (r: String)
    ensures
        r@ == or_else(opt_v(*o), Seq::empty()),
{
    match o {
        Some(s) => s.clone(),
        None => String::new(),
    }
}

/// Copies a structured document.
pub fn clone_doc(d: &RecordDoc) -> (r: RecordDoc)
    ensures
        r@ == d@,
{
    let r = RecordDoc {
        record_type: clone_opt(&d.record_type),
        title: clone_opt(&d.title),
        created_at: clone_opt(&d.created_at),
        source_text: clone_opt(&d.source_text),
        final_body: clone_opt(&d.final_body),
        tags: clone_strings(&d.tags),
        date: clone_opt(&d.date),
        notion_page_id: clone_opt(&d.notion_page_id),
        notion_url: clone_opt(&d.notion_url),
        notion_sync_status: clone_opt(&d.notion_sync_status),
        notion_error: clone_opt(&d.notion_error),
        notion_last_synced_at: clone_opt(&d.notion_last_synced_at),
        notion_last_edited_time: clone_opt(&d.notion_last_edited_time),
        notion_last_synced_hash: clone_opt(&d.notion_last_synced_hash),
    };
    proof {
        assert(r@ =~= d@);
    }
    r
}

} // verus!
