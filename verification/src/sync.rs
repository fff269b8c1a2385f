//! Bidirectional sync: the local content watermark (an FNV-1a fold over the
//! record's stable fields), the remote edit-time watermark, the conflict
//! decision matrices, remote-to-local application and the batch tally.

use vstd::prelude::*;
use vstd::string::{StringExecFns, StrSliceExecFns};
use crate::clock::now_rfc3339;
use crate::records::{canon_rtype, clone_opt, clone_record, clone_strings, is_canon_type, normalize_record_type, opt_v, Record, RecordV};
use crate::store::or_else;
use crate::text::{chars_eq, chars_vec, is_blank, lower_chars, lower_seq, string_from_chars, trim_chars, trimmed};
use crate::util::{strs};

verus! {

/// The FNV-1a offset basis and prime.
pub open spec fn fnv_basis() -> u64 {
    0xcbf29ce484222325
}

pub open spec fn fnv_prime() -> u64 {
    0x100000001b3
}

pub open spec fn wrap_mul64(a: u64, b: u64) -> u64 {
    (((a as int) * (b as int)) % 0x1_0000_0000_0000_0000) as u64
}

/// One FNV-1a step over a code point.
pub open spec fn fnv_step(h: u64, c: char) -> u64 {
    wrap_mul64(h ^ (c as u64), fnv_prime())
}

/// FNV-1a folded over a string's code points.
pub open spec fn fnv_chars(h: u64, s: Seq<char>) -> u64
    decreases s.len(),
{
    if s.len() == 0 {
        h
    } else {
        fnv_chars(fnv_step(h, s[0]), s.drop_first())
    }
}

/// A field separator step keeps adjacent fields from running together.
pub open spec fn fnv_sep(h: u64) -> u64 {
    wrap_mul64(h ^ 0x1f, fnv_prime())
}

pub open spec fn fnv_field(h: u64, s: Seq<char>) -> u64 {
    fnv_sep(fnv_chars(h, s))
}

pub open spec fn fnv_opt(h: u64, o: Option<Seq<char>>) -> u64 {
    match o {
        Some(s) => fnv_field(wrap_mul64(h ^ 1, fnv_prime()), s),
        None => wrap_mul64(h ^ 0, fnv_prime()),
    }
}

pub open spec fn fnv_tags(h: u64, tags: Seq<Seq<char>>) -> u64
    decreases tags.len(),
{
    if tags.len() == 0 {
        h
    } else {
        fnv_tags(fnv_field(h, tags[0]), tags.drop_first())
    }
}

/// The content watermark of a record: its type, title, creation time, texts,
/// date and tags folded through FNV-1a.
pub open spec fn sync_hash_of(r: RecordV) -> u64 {
    fnv_tags(
        fnv_opt(
            fnv_field(
                fnv_field(
                    fnv_field(fnv_field(fnv_field(fnv_basis(), r.record_type), r.title), r.created_at),
                    r.source_text,
                ),
                r.final_body,
            ),
            r.date,
        ),
        r.tags,
    )
}

/// Hexadecimal digits of `n`, lowercase, no leading zeros.
pub open spec fn hex_str(n: nat) -> Seq<char>
    decreases n,
{
    if n < 16 {
        seq![hex_digit(n % 16)]
    } else {
        hex_str(n / 16).push(hex_digit(n % 16))
    }
}

pub open spec fn hex_digit(d: nat) -> char {
    if d < 10 {
        ((48 + d) as u8) as char
    } else {
        ((87 + d) as u8) as char
    }
}

fn hex_digit_exec(d: u64) -> (r: char)
    requires
        d < 16,
    ensures
        r == hex_digit(d as nat),
{
    if d < 10 {
        ((48 + d) as u8) as char
    } else {
        ((87 + d) as u8) as char
    }
}

fn u64_hex_chars(n: u64) -> (r: Vec<char>)
    ensures
        r@ == hex_str(n as nat),
    decreases n,
{
    if n < 16 {
        let mut v: Vec<char> = Vec::new();
        v.push(hex_digit_exec(n % 16));
        proof {
            assert(v@ =~= hex_str(n as nat));
        }
        v
    } else {
        let mut v = u64_hex_chars(n / 16);
        v.push(hex_digit_exec(n % 16));
        v
    }
}

fn fnv_chars_exec(h0: u64, v: &Vec<char>) -> (r: u64)
    ensures
        r == fnv_chars(h0, v@),
{
    let mut h = h0;
    let mut i: usize = 0;
    proof {
        assert(v@.skip(0) =~= v@);
    }
    while i < v.len()
        invariant
            i <= v.len(),
            fnv_chars(h, v@.skip(i as int)) == fnv_chars(h0, v@),
        decreases v.len() - i,
    {
        proof {
            assert(v@.skip(i as int)[0] == v@[i as int]);
            assert(v@.skip(i as int).drop_first() =~= v@.skip(i + 1));
        }
        let c = v[i];
        h = (h ^ (c as u64)).wrapping_mul(0x100000001b3u64);
        i = i + 1;
    }
    proof {
        assert(v@.skip(i as int).len() == 0);
    }
    h
}

fn fnv_field_exec(h: u64, s: &str) -> (r: u64)
    ensures
        r == fnv_field(h, s@),
{
    let v = chars_vec(s);
    let m = fnv_chars_exec(h, &v);
    (m ^ 0x1fu64).wrapping_mul(0x100000001b3u64)
}

/// One FNV-1a field fold, shared with the workspace fingerprint.
pub fn fnv_field_pub(h: u64, s: &str) -> (r: u64)
    ensures
        r == fnv_field(h, s@),
{
    fnv_field_exec(h, s)
}

/// Renders a 64-bit value as its hex token.
pub fn u64_hex_string(n: u64) -> (r: String)
    ensures
        r@ == hex_str(n as nat),
{
    let v = u64_hex_chars(n);
    string_from_chars(&v)
}

/// Computes a record's content watermark as a hex token.
pub fn record_sync_hash(record: &Record) -> (r: String)
    ensures
        r@ == hex_str(sync_hash_of(record@) as nat),
{
    let mut h = fnv_field_exec(0xcbf29ce484222325u64, record.record_type.as_str());
    h = fnv_field_exec(h, record.title.as_str());
    h = fnv_field_exec(h, record.created_at.as_str());
    h = fnv_field_exec(h, record.source_text.as_str());
    h = fnv_field_exec(h, record.final_body.as_str());
    h = match &record.date {
        Some(d) => fnv_field_exec((h ^ 1u64).wrapping_mul(0x100000001b3u64), d.as_str()),
        None => (h ^ 0u64).wrapping_mul(0x100000001b3u64),
    };
    let mut i: usize = 0;
    proof {
        assert(strs(record.tags@).skip(0) =~= strs(record.tags@));
    }
    while i < record.tags.len()
        invariant
            i <= record.tags@.len(),
            fnv_tags(h, strs(record.tags@).skip(i as int)) == sync_hash_of(record@),
        decreases record.tags.len() - i,
    {
        proof {
            assert(strs(record.tags@).skip(i as int)[0] == strs(record.tags@)[i as int]);
            assert(strs(record.tags@).skip(i as int).drop_first() =~= strs(record.tags@).skip(
                i + 1,
            ));
        }
        h = fnv_field_exec(h, record.tags[i].as_str());
        i = i + 1;
    }
    proof {
        assert(strs(record.tags@).skip(i as int).len() == 0);
    }
    let hx = u64_hex_chars(h);
    string_from_chars(&hx)
}

/// The record changed locally: no stored watermark, or the content hash
/// moved.
pub open spec fn local_changed(r: RecordV) -> bool {
    let base = trimmed(or_else(r.notion_last_synced_hash, Seq::empty()));
    base.len() == 0 || hex_str(sync_hash_of(r) as nat) != base
}

pub fn local_has_changed_since_sync(record: &Record) -> (r: bool)
    ensures
        r == local_changed(record@),
{
    let base: String = match &record.notion_last_synced_hash {
        Some(s) => crate::text::trim_str(s.as_str()),
        None => String::new(),
    };
    if base.as_str().unicode_len() == 0 {
        return true;
    }
    let cur = record_sync_hash(record);
    let a = chars_vec(cur.as_str());
    let b = chars_vec(base.as_str());
    !chars_eq(&a, &b)
}

/// What a page looks like from the remote database, flattened to plain
/// values.
pub struct NotionRemoteRecord {
    pub page_id: String,
    pub page_url: Option<String>,
    pub last_edited_time: Option<String>,
    pub record_type: String,
    pub title: String,
    pub created_at: String,
    pub date: Option<String>,
    pub tags: Vec<String>,
    pub final_body: String,
    pub source_text: String,
}

/// The remote changed: it reports a non-blank edit time that differs from the
/// one stored locally.
pub open spec fn remote_changed(r: RecordV, remote_edit_time: Option<Seq<char>>) -> bool {
    let current = trimmed(or_else(remote_edit_time, Seq::empty()));
    current.len() > 0 && trimmed(or_else(r.notion_last_edited_time, Seq::empty())) != current
}

pub fn remote_has_changed(record: &Record, remote: &NotionRemoteRecord) -> (r: bool)
    ensures
        r == remote_changed(record@, opt_v(remote.last_edited_time)),
{
    let current: String = match &remote.last_edited_time {
        Some(s) => crate::text::trim_str(s.as_str()),
        None => String::new(),
    };
    if current.as_str().unicode_len() == 0 {
        return false;
    }
    let previous: String = match &record.notion_last_edited_time {
        Some(s) => crate::text::trim_str(s.as_str()),
        None => String::new(),
    };
    let a = chars_vec(previous.as_str());
    let b = chars_vec(current.as_str());
    !chars_eq(&a, &b)
}

/// Stamps a record as synced: status `SUCCESS`, the error cleared, the sync
/// time refreshed, the remote edit time adopted when given, and the content
/// watermark recomputed.
pub fn mark_record_synced(record: &mut Record, remote_last_edited_time: Option<String>)
    ensures
        final(record)@ == (RecordV {
            notion_sync_status: "SUCCESS"@,
            notion_error: None,
            notion_last_synced_at: final(record)@.notion_last_synced_at,
            notion_last_edited_time: (match opt_v(remote_last_edited_time) {
                Some(v) => if trimmed(v).len() > 0 {
                    Some(v)
                } else {
                    old(record)@.notion_last_edited_time
                },
                None => old(record)@.notion_last_edited_time,
            }),
            notion_last_synced_hash: Some(hex_str(sync_hash_of(old(record)@) as nat)),
            ..old(record)@
        }),
        (final(record)@.notion_last_synced_at matches Some(t) && t.len() > 0),
{
    record.notion_sync_status = String::from_str("SUCCESS");
    record.notion_error = None;
    record.notion_last_synced_at = Some(now_rfc3339());
    match remote_last_edited_time {
        Some(v) => {
            if !is_blank(v.as_str()) {
                record.notion_last_edited_time = Some(v);
            }
        },
        None => {},
    }
    let ghost pre_hash_view = record@;
    let h = record_sync_hash(record);
    record.notion_last_synced_hash = Some(h);
    proof {
        reveal_strlit("SUCCESS");
        assert(final(record)@ =~= (RecordV {
            notion_sync_status: "SUCCESS"@,
            notion_error: None,
            notion_last_synced_at: final(record)@.notion_last_synced_at,
            notion_last_edited_time: final(record)@.notion_last_edited_time,
            notion_last_synced_hash: Some(hex_str(sync_hash_of(old(record)@) as nat)),
            ..old(record)@
        }));
    }
}

/// A remote page overlaid on a local record: content and identity fields are
/// the remote's (blank title and creation time keep the local values), the
/// remote link fields refreshed, the error cleared.
pub open spec fn applied_remote(local: RecordV, remote: NotionRemoteRecord) -> RecordV {
    RecordV {
        record_type: canon_rtype(remote.record_type@),
        title: if trimmed(remote.title@).len() == 0 {
            local.title
        } else {
            remote.title@
        },
        created_at: if trimmed(remote.created_at@).len() == 0 {
            local.created_at
        } else {
            remote.created_at@
        },
        source_text: remote.source_text@,
        final_body: remote.final_body@,
        tags: strs(remote.tags@),
        date: opt_v(remote.date),
        notion_page_id: Some(remote.page_id@),
        notion_url: opt_v(remote.page_url),
        notion_error: None,
        ..local
    }
}

/// Overlays a remote page on a local record.
pub fn apply_remote_to_local_record(local: &Record, remote: &NotionRemoteRecord) -> (r: Record)
    ensures
        r@ == applied_remote(local@, *remote),
{
    let mut next = clone_record(local);
    next.record_type = normalize_record_type(remote.record_type.as_str());
    if !is_blank(remote.title.as_str()) {
        next.title = remote.title.clone();
    }
    if !is_blank(remote.created_at.as_str()) {
        next.created_at = remote.created_at.clone();
    }
    next.source_text = remote.source_text.clone();
    next.final_body = remote.final_body.clone();
    next.tags = clone_strings(&remote.tags);
    next.date = clone_opt(&remote.date);
    next.notion_page_id = Some(remote.page_id.clone());
    next.notion_url = clone_opt(&remote.page_url);
    next.notion_error = None;
    proof {
        assert(next@ =~= applied_remote(local@, *remote));
    }
    next
}

/// A brand-new local record built from a remote page.
pub fn record_from_remote(remote: &NotionRemoteRecord) -> (r: Record)
    ensures
        r@.record_type == canon_rtype(remote.record_type@),
        is_canon_type(r@.record_type),
        r@.title == (if trimmed(remote.title@).len() == 0 {
            "Untitled"@
        } else {
            remote.title@
        }),
        trimmed(remote.created_at@).len() > 0 ==> r@.created_at == remote.created_at@,
        r@.created_at.len() > 0,
        r@.source_text == remote.source_text@,
        r@.final_body == remote.final_body@,
        r@.tags == strs(remote.tags@),
        r@.date == opt_v(remote.date),
        r@.notion_page_id == Some(remote.page_id@),
        r@.notion_url == opt_v(remote.page_url),
        r@.notion_sync_status == "SUCCESS"@,
        r@.notion_error is None,
        r@.notion_last_edited_time == opt_v(remote.last_edited_time),
{
    let title = if is_blank(remote.title.as_str()) {
        String::from_str("Untitled")
    } else {
        remote.title.clone()
    };
    let created_at = if is_blank(remote.created_at.as_str()) {
        let n = now_rfc3339();
        n
    } else {
        remote.created_at.clone()
    };
    proof {
        reveal_strlit("Untitled");
        reveal_strlit("SUCCESS");
        crate::text::lemma_trimmed_len(remote.created_at@);
    }
    Record {
        record_type: normalize_record_type(remote.record_type.as_str()),
        title,
        created_at,
        source_text: remote.source_text.clone(),
        final_body: remote.final_body.clone(),
        tags: clone_strings(&remote.tags),
        date: clone_opt(&remote.date),
        notion_page_id: Some(remote.page_id.clone()),
        notion_url: clone_opt(&remote.page_url),
        notion_sync_status: String::from_str("SUCCESS"),
        notion_error: None,
        notion_last_synced_at: None,
        notion_last_edited_time: clone_opt(&remote.last_edited_time),
        notion_last_synced_hash: None,
        json_path: None,
        md_path: None,
    }
}

/// What a successful remote upsert reports back.
pub struct NotionUpsertInfo {
    pub page_id: String,
    pub page_url: Option<String>,
    pub last_edited_time: Option<String>,
}

/// Adopts a successful remote upsert into the local record: the page link
/// fields refresh and the record is stamped as synced.
pub fn adopt_upsert_info(record: &mut Record, info: NotionUpsertInfo)
    ensures
        final(record)@.notion_page_id == Some(info.page_id@),
        final(record)@.notion_url == opt_v(info.page_url),
        final(record)@.notion_sync_status == "SUCCESS"@,
        final(record)@.notion_error is None,
        (final(record)@.notion_last_synced_at matches Some(t) && t.len() > 0),
{
    record.notion_page_id = Some(info.page_id);
    record.notion_url = info.page_url;
    mark_record_synced(record, info.last_edited_time);
}

/// One record's sync outcome, as the caller reports it.
pub struct NotionSyncResult {
    pub json_path: String,
    pub notion_page_id: Option<String>,
    pub notion_url: Option<String>,
    pub notion_sync_status: String,
    pub notion_error: Option<String>,
    pub action: String,
    pub conflict: bool,
}

/// Assembles a sync result from a record's current link fields.
pub fn build_sync_result(json_path: &str, record: &Record, action: &str, conflict: bool) -> (r:
    NotionSyncResult)
    ensures
        r.json_path@ == json_path@,
        opt_v(r.notion_page_id) == record@.notion_page_id,
        opt_v(r.notion_url) == record@.notion_url,
        r.notion_sync_status@ == record@.notion_sync_status,
        opt_v(r.notion_error) == record@.notion_error,
        r.action@ == action@,
        r.conflict == conflict,
{
    NotionSyncResult {
        json_path: String::from_str(json_path),
        notion_page_id: clone_opt(&record.notion_page_id),
        notion_url: clone_opt(&record.notion_url),
        notion_sync_status: record.notion_sync_status.clone(),
        notion_error: clone_opt(&record.notion_error),
        action: String::from_str(action),
        conflict,
    }
}

/// The three conflict policies, with their aliases folded in.
pub open spec fn canon_strategy(value: Option<Seq<char>>) -> Seq<char> {
    let l = lower_seq(trimmed(or_else(value, "manual"@)));
    if l == "local"@ || l == "local_wins"@ {
        "local_wins"@
    } else if l == "notion"@ || l == "notion_wins"@ || l == "remote_wins"@ {
        "notion_wins"@
    } else {
        "manual"@
    }
}

/// Normalizes a conflict strategy argument.
pub fn normalize_conflict_strategy(value: Option<String>) -> (r: String)
    ensures
        r@ == canon_strategy(opt_v(value)),
{
    let raw: String = match value {
        Some(s) => s,
        None => String::from_str("manual"),
    };
    let v = chars_vec(raw.as_str());
    let t = trim_chars(&v);
    let l = lower_chars(&t);
    if chars_eq(&l, &chars_vec("local")) || chars_eq(&l, &chars_vec("local_wins")) {
        String::from_str("local_wins")
    } else if chars_eq(&l, &chars_vec("notion")) || chars_eq(&l, &chars_vec("notion_wins"))
        || chars_eq(&l, &chars_vec("remote_wins")) {
        String::from_str("notion_wins")
    } else {
        String::from_str("manual")
    }
}

/// What one sync step decides, before any remote call is made. Pushes carry
/// only a label: the caller performs the remote write and stamps the record
/// by its outcome.
pub enum SyncPlanStep {
    ConflictManual { record: Record },
    PullRemote { record: Record, action_label: String },
    PushLocal { action_label: String },
    NoopRefresh { record: Record },
    LocalOnlyPending { record: Record },
    CreateLocal { record: Record },
}

/// The full decision matrix of a bidirectional single-record sync, applied
/// once the remote page (or its absence) is known. Under the manual policy a
/// two-sided change conflicts and nothing is pushed.
#[verifier::rlimit(100)]
pub fn sync_record_bidirectional_internal(
    record: &Record,
    remote: &Option<NotionRemoteRecord>,
    conflict_strategy: &str,
) -> (r: SyncPlanStep)
    ensures
        (remote is None ==> (r matches SyncPlanStep::PushLocal { action_label } && action_label@
            == "pushed_local"@)),
        (remote matches Some(rem) ==> {
            let lc = local_changed(record@);
            let rc = remote_changed(record@, opt_v(rem.last_edited_time));
            &&& ((lc && rc && conflict_strategy@ == "manual"@) ==> (
            r matches SyncPlanStep::ConflictManual { record: c } && c@ == (RecordV {
                notion_sync_status: "CONFLICT"@,
                notion_error: Some(
                    "Conflict detected: local and Notion both changed since last sync."@,
                ),
                ..record@
            })))
            &&& ((lc && rc && conflict_strategy@ == "notion_wins"@) ==> (
            r matches SyncPlanStep::PullRemote { record: n, action_label } && n@.notion_sync_status
                == "SUCCESS"@ && action_label@ == "pulled_notion_conflict_notion_wins"@))
            &&& ((lc && rc && conflict_strategy@ != "manual"@ && conflict_strategy@
                != "notion_wins"@) ==> (r matches SyncPlanStep::PushLocal { action_label }
                && action_label@ == "pushed_local_conflict_local_wins"@))
            &&& ((lc && !rc) ==> (r matches SyncPlanStep::PushLocal { action_label }
                && action_label@ == "pushed_local"@))
            &&& ((!lc && rc) ==> (r matches SyncPlanStep::PullRemote { record: n, action_label }
                && n@.notion_sync_status == "SUCCESS"@ && action_label@ == "pulled_notion"@))
            &&& ((!lc && !rc) ==> (r matches SyncPlanStep::NoopRefresh { record: n }
                && n@.notion_sync_status == "SUCCESS"@))
        }),
{
    proof {
        reveal_strlit("manual");
        reveal_strlit("notion_wins");
        reveal_strlit("local_wins");
        assert("manual"@.len() == 6 && "notion_wins"@.len() == 11 && "local_wins"@.len() == 10);
    }
    let rem = match remote {
        Some(rm) => rm,
        None => {
            return SyncPlanStep::PushLocal { action_label: String::from_str("pushed_local") };
        },
    };
    let lc = local_has_changed_since_sync(record);
    let rc = remote_has_changed(record, rem);
    if lc && rc {
        let sv = chars_vec(conflict_strategy);
        if chars_eq(&sv, &chars_vec("manual")) {
            let mut c = clone_record(record);
            c.notion_sync_status = String::from_str("CONFLICT");
            c.notion_error = Some(
                String::from_str(
                    "Conflict detected: local and Notion both changed since last sync.",
                ),
            );
            proof {
                reveal_strlit("CONFLICT");
                assert(c@ =~= (RecordV {
                    notion_sync_status: "CONFLICT"@,
                    notion_error: Some(
                        "Conflict detected: local and Notion both changed since last sync."@,
                    ),
                    ..record@
                }));
            }
            return SyncPlanStep::ConflictManual { record: c };
        }
        if chars_eq(&sv, &chars_vec("notion_wins")) {
            let mut n = apply_remote_to_local_record(record, rem);
            mark_record_synced(&mut n, clone_opt(&rem.last_edited_time));
            return SyncPlanStep::PullRemote {
                record: n,
                action_label: String::from_str("pulled_notion_conflict_notion_wins"),
            };
        }
        return SyncPlanStep::PushLocal {
            action_label: String::from_str("pushed_local_conflict_local_wins"),
        };
    }
    if lc {
        return SyncPlanStep::PushLocal { action_label: String::from_str("pushed_local") };
    }
    if rc {
        let mut n = apply_remote_to_local_record(record, rem);
        mark_record_synced(&mut n, clone_opt(&rem.last_edited_time));
        return SyncPlanStep::PullRemote {
            record: n,
            action_label: String::from_str("pulled_notion"),
        };
    }
    let mut n = clone_record(record);
    mark_record_synced(&mut n, clone_opt(&rem.last_edited_time));
    SyncPlanStep::NoopRefresh { record: n }
}

/// The one-way push's pre-check: a two-sided change under the manual policy
/// conflicts, under the remote-wins policy pulls; everything else pushes.
pub fn sync_record_to_notion_internal(
    record: &Record,
    remote_meta: &Option<NotionRemoteRecord>,
    conflict_strategy: &str,
) -> (r: SyncPlanStep)
    ensures
        (remote_meta matches Some(rem) && local_changed(record@) && remote_changed(
            record@,
            opt_v(rem.last_edited_time),
        ) && conflict_strategy@ == "manual"@ ==> (r matches SyncPlanStep::ConflictManual {
            record: c,
        } && c@ == (RecordV {
            notion_sync_status: "CONFLICT"@,
            notion_error: Some(
                "Conflict detected: local and Notion both changed since last sync."@,
            ),
            ..record@
        }))),
        (remote_meta matches Some(rem) && local_changed(record@) && remote_changed(
            record@,
            opt_v(rem.last_edited_time),
        ) && conflict_strategy@ == "notion_wins"@ ==> (r matches SyncPlanStep::PullRemote {
            record: n,
            action_label,
        } && action_label@ == "pulled_notion_conflict_notion_wins"@)),
        ((match remote_meta {
            Some(rem) => !(local_changed(record@) && remote_changed(
                record@,
                opt_v(rem.last_edited_time),
            ) && (conflict_strategy@ == "manual"@ || conflict_strategy@ == "notion_wins"@)),
            None => true,
        }) ==> (r matches SyncPlanStep::PushLocal { action_label } && action_label@
            == "pushed_local"@)),
{
    proof {
        reveal_strlit("manual");
        reveal_strlit("notion_wins");
        reveal_strlit("local_wins");
        assert("manual"@.len() == 6 && "notion_wins"@.len() == 11 && "local_wins"@.len() == 10);
    }
    match remote_meta {
        Some(rem) => {
            let lc = local_has_changed_since_sync(record);
            let rc = remote_has_changed(record, rem);
            if lc && rc {
                let sv = chars_vec(conflict_strategy);
                if chars_eq(&sv, &chars_vec("manual")) {
                    let mut c = clone_record(record);
                    c.notion_sync_status = String::from_str("CONFLICT");
                    c.notion_error = Some(
                        String::from_str(
                            "Conflict detected: local and Notion both changed since last sync.",
                        ),
                    );
                    proof {
                        reveal_strlit("CONFLICT");
                        assert(c@ =~= (RecordV {
                            notion_sync_status: "CONFLICT"@,
                            notion_error: Some(
                                "Conflict detected: local and Notion both changed since last sync."@,
                            ),
                            ..record@
                        }));
                    }
                    return SyncPlanStep::ConflictManual { record: c };
                }
                if chars_eq(&sv, &chars_vec("notion_wins")) {
                    let mut n = apply_remote_to_local_record(record, rem);
                    mark_record_synced(&mut n, clone_opt(&rem.last_edited_time));
                    return SyncPlanStep::PullRemote {
                        record: n,
                        action_label: String::from_str("pulled_notion_conflict_notion_wins"),
                    };
                }
            }
            SyncPlanStep::PushLocal { action_label: String::from_str("pushed_local") }
        },
        None => SyncPlanStep::PushLocal { action_label: String::from_str("pushed_local") },
    }
}

/// The batch pull's per-page decision: an unknown page becomes a fresh local
/// record; a known one follows the bidirectional matrix, except that a
/// local-only change under the manual policy is skipped as `PENDING`.
#[verifier::rlimit(100)]
pub fn plan_pull_page(
    existing: &Option<Record>,
    remote: &NotionRemoteRecord,
    conflict_strategy: &str,
) -> (r: SyncPlanStep)
    ensures
        (existing is None ==> (r matches SyncPlanStep::CreateLocal { record: n }
            && n@.notion_sync_status == "SUCCESS"@ && n@.notion_page_id == Some(remote.page_id@)
            && is_canon_type(n@.record_type) && n@.notion_last_synced_hash == Some(
            hex_str(sync_hash_of(n@) as nat),
        ))),
        (existing matches Some(local) ==> {
            let lc = local_changed(local@);
            let rc = remote_changed(local@, opt_v(remote.last_edited_time));
            &&& ((lc && rc && conflict_strategy@ == "manual"@) ==> (
            r matches SyncPlanStep::ConflictManual { record: c } && c@.notion_sync_status
                == "CONFLICT"@))
            &&& ((lc && !rc && conflict_strategy@ == "manual"@) ==> (
            r matches SyncPlanStep::LocalOnlyPending { record: c } && c@ == (RecordV {
                notion_sync_status: "PENDING"@,
                notion_error: Some(
                    "Local-only changes detected. Pull skipped by manual strategy."@,
                ),
                ..local@
            })))
            &&& ((!lc && rc) ==> (r matches SyncPlanStep::PullRemote { record: n, action_label }
                && action_label@ == "pulled_notion"@))
            &&& ((!lc && !rc) ==> (r matches SyncPlanStep::NoopRefresh { record: n }
                && n@.notion_sync_status == "SUCCESS"@))
        }),
{
    proof {
        reveal_strlit("manual");
        reveal_strlit("notion_wins");
        reveal_strlit("local_wins");
        assert("manual"@.len() == 6 && "notion_wins"@.len() == 11 && "local_wins"@.len() == 10);
    }
    let local = match existing {
        Some(l) => l,
        None => {
            let mut n = record_from_remote(remote);
            let ghost before = n@;
            mark_record_synced(&mut n, clone_opt(&remote.last_edited_time));
            proof {
                assert(sync_hash_of(n@) == sync_hash_of(before));
            }
            return SyncPlanStep::CreateLocal { record: n };
        },
    };
    let lc = local_has_changed_since_sync(local);
    let rc = remote_has_changed(local, remote);
    let sv = chars_vec(conflict_strategy);
    if lc && rc {
        if chars_eq(&sv, &chars_vec("manual")) {
            let mut c = clone_record(local);
            c.notion_sync_status = String::from_str("CONFLICT");
            c.notion_error = Some(
                String::from_str("Conflict detected while pulling from Notion (manual strategy)."),
            );
            proof {
                reveal_strlit("CONFLICT");
            }
            return SyncPlanStep::ConflictManual { record: c };
        }
        if chars_eq(&sv, &chars_vec("local_wins")) {
            return SyncPlanStep::PushLocal {
                action_label: String::from_str("pushed_local_conflict_local_wins"),
            };
        }
        let mut n = apply_remote_to_local_record(local, remote);
        mark_record_synced(&mut n, clone_opt(&remote.last_edited_time));
        return SyncPlanStep::PullRemote {
            record: n,
            action_label: String::from_str("pulled_notion_conflict_notion_wins"),
        };
    }
    if rc {
        let mut n = apply_remote_to_local_record(local, remote);
        mark_record_synced(&mut n, clone_opt(&remote.last_edited_time));
        return SyncPlanStep::PullRemote {
            record: n,
            action_label: String::from_str("pulled_notion"),
        };
    }
    if lc {
        if chars_eq(&sv, &chars_vec("local_wins")) {
            return SyncPlanStep::PushLocal {
                action_label: String::from_str("pushed_local_local_only_change"),
            };
        }
        if chars_eq(&sv, &chars_vec("notion_wins")) {
            let mut n = apply_remote_to_local_record(local, remote);
            mark_record_synced(&mut n, clone_opt(&remote.last_edited_time));
            return SyncPlanStep::PullRemote {
                record: n,
                action_label: String::from_str("pulled_notion_local_only_change"),
            };
        }
        let mut c = clone_record(local);
        c.notion_sync_status = String::from_str("PENDING");
        c.notion_error = Some(
            String::from_str("Local-only changes detected. Pull skipped by manual strategy."),
        );
        proof {
            reveal_strlit("PENDING");
            assert(c@ =~= (RecordV {
                notion_sync_status: "PENDING"@,
                notion_error: Some(
                    "Local-only changes detected. Pull skipped by manual strategy."@,
                ),
                ..local@
            }));
        }
        return SyncPlanStep::LocalOnlyPending { record: c };
    }
    let mut n = clone_record(local);
    mark_record_synced(&mut n, clone_opt(&remote.last_edited_time));
    SyncPlanStep::NoopRefresh { record: n }
}

/// How many results counted as successes, failures and conflicts: a conflict
/// counts as a failure too, a `SUCCESS` status succeeds, everything else
/// fails.
pub open spec fn tally_of(results: Seq<NotionSyncResult>) -> (int, int, int)
    decreases results.len(),
{
    if results.len() == 0 {
        (0int, 0int, 0int)
    } else {
        let rest = tally_of(results.drop_first());
        let x = results[0];
        if x.conflict {
            (rest.0, rest.1 + 1, rest.2 + 1)
        } else if x.notion_sync_status@ == "SUCCESS"@ {
            (rest.0 + 1, rest.1, rest.2)
        } else {
            (rest.0, rest.1 + 1, rest.2)
        }
    }
}

/// The batch summary of a result list.
pub struct NotionBatchSyncResult {
    pub total: usize,
    pub success: usize,
    pub failed: usize,
    pub conflicts: usize,
    pub results: Vec<NotionSyncResult>,
}

/// Tallies a batch: conflicts count among the failures.
pub fn build_batch_summary(results: Vec<NotionSyncResult>) -> (r: NotionBatchSyncResult)
    ensures
        r.total == results@.len(),
        r.success == tally_of(results@).0,
        r.failed == tally_of(results@).1,
        r.conflicts == tally_of(results@).2,
        r.results@ == results@,
        r.success + r.failed == r.total,
{
    proof {
        assert(results@.skip(0) =~= results@);
        lemma_tally_bounds(results@);
    }
    let (s, f, c) = tally_from(&results, 0);
    NotionBatchSyncResult {
        total: results.len(),
        success: s,
        failed: f,
        conflicts: c,
        results,
    }
}

proof fn lemma_tally_bounds(results: Seq<NotionSyncResult>)
    ensures
        0 <= tally_of(results).0,
        0 <= tally_of(results).1,
        0 <= tally_of(results).2 <= tally_of(results).1,
        tally_of(results).0 + tally_of(results).1 == results.len(),
    decreases results.len(),
{
    if results.len() > 0 {
        lemma_tally_bounds(results.drop_first());
    }
}

fn tally_from(results: &Vec<NotionSyncResult>, i: usize) -> (r: (usize, usize, usize))
    requires
        i <= results.len(),
    ensures
        r.0 == tally_of(results@.skip(i as int)).0,
        r.1 == tally_of(results@.skip(i as int)).1,
        r.2 == tally_of(results@.skip(i as int)).2,
    decreases results.len() - i,
{
    if i == results.len() {
        return (0, 0, 0);
    }
    proof {
        assert(results@.skip(i as int)[0] == results@[i as int]);
        assert(results@.skip(i as int).drop_first() =~= results@.skip(i + 1));
        lemma_tally_bounds(results@.skip(i + 1));
        lemma_tally_bounds(results@.skip(i as int));
    }
    let (s, f, c) = tally_from(results, i + 1);
    let x = &results[i];
    if x.conflict {
        (s, f + 1, c + 1)
    } else {
        let sv = chars_vec(x.notion_sync_status.as_str());
        if chars_eq(&sv, &chars_vec("SUCCESS")) {
            (s + 1, f, c)
        } else {
            (s, f + 1, c)
        }
    }
}

} // verus!
