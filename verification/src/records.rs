//! The record model: a typed note with a structured document and a rendered
//! markdown twin, its canonical type, slug, filename and templates.

use vstd::prelude::*;
use vstd::string::{StringExecFns, StrSliceExecFns};
use crate::clock::{now_stamp, ClockStamp};
use crate::text::{
    chars_eq, chars_vec, is_ascii_digit, is_ascii_lower, is_ascii_upper, is_wspace, lower_chars,
    lower_seq, ltrimmed, rtrimmed, string_from_chars, trim_chars, trimmed, upper_seq, upper_chars,
};
use crate::util::{join_sep, join_with, strs, u64_zero_padded, zero_padded};

verus! {

/// A typed note, as the whole system passes it around.
pub struct Record {
    pub record_type: String,
    pub title: String,
    pub created_at: String,
    pub source_text: String,
    pub final_body: String,
    pub tags: Vec<String>,
    pub date: Option<String>,
    pub notion_page_id: Option<String>,
    pub notion_url: Option<String>,
    pub notion_sync_status: String,
    pub notion_error: Option<String>,
    pub notion_last_synced_at: Option<String>,
    pub notion_last_edited_time: Option<String>,
    pub notion_last_synced_hash: Option<String>,
    pub json_path: Option<String>,
    pub md_path: Option<String>,
}

/// The mathematical value of a record.
#[verifier::ext_equal]
pub ghost struct RecordV {
    pub record_type: Seq<char>,
    pub title: Seq<char>,
    pub created_at: Seq<char>,
    pub source_text: Seq<char>,
    pub final_body: Seq<char>,
    pub tags: Seq<Seq<char>>,
    pub date: Option<Seq<char>>,
    pub notion_page_id: Option<Seq<char>>,
    pub notion_url: Option<Seq<char>>,
    pub notion_sync_status: Seq<char>,
    pub notion_error: Option<Seq<char>>,
    pub notion_last_synced_at: Option<Seq<char>>,
    pub notion_last_edited_time: Option<Seq<char>>,
    pub notion_last_synced_hash: Option<Seq<char>>,
    pub json_path: Option<Seq<char>>,
    pub md_path: Option<Seq<char>>,
}

pub open spec fn opt_v(o: Option<String>) -> Option<Seq<char>> {
    match o {
        Some(s) => Some(s@),
        None => None,
    }
}

impl View for Record {
    type V = RecordV;

    open spec fn view(&self) -> RecordV {
        RecordV {
            record_type: self.record_type@,
            title: self.title@,
            created_at: self.created_at@,
            source_text: self.source_text@,
            final_body: self.final_body@,
            tags: strs(self.tags@),
            date: opt_v(self.date),
            notion_page_id: opt_v(self.notion_page_id),
            notion_url: opt_v(self.notion_url),
            notion_sync_status: self.notion_sync_status@,
            notion_error: opt_v(self.notion_error),
            notion_last_synced_at: opt_v(self.notion_last_synced_at),
            notion_last_edited_time: opt_v(self.notion_last_edited_time),
            notion_last_synced_hash: opt_v(self.notion_last_synced_hash),
            json_path: opt_v(self.json_path),
            md_path: opt_v(self.md_path),
        }
    }
}

/// Copies an optional string.
pub fn clone_opt(o: &Option<String>) -> (r: Option<String>)
    ensures
        opt_v(r) == opt_v(*o),
{
    match o {
        Some(s) => Some(s.clone()),
        None => None,
    }
}

/// Copies a string vector.
pub fn clone_strings(v: &Vec<String>) -> (r: Vec<String>)
    ensures
        strs(r@) == strs(v@),
{
    let mut r: Vec<String> = Vec::new();
    let mut i: usize = 0;
    while i < v.len()
        invariant
            i <= v.len(),
            strs(r@) == strs(v@.subrange(0, i as int)),
        decreases v.len() - i,
    {
        let ghost pre = r@;
        r.push(v[i].clone());
        i = i + 1;
        proof {
            crate::util::lemma_strs_push(pre, r@.last());
            crate::util::lemma_strs_push(v@.subrange(0, i - 1), v@[i - 1]);
            assert(v@.subrange(0, i as int) =~= v@.subrange(0, i - 1).push(v@[i - 1]));
            assert(r@ =~= pre.push(r@.last()));
        }
    }
    proof {
        assert(v@.subrange(0, v@.len() as int) =~= v@);
    }
    r
}

/// Copies a record.
pub fn clone_record(r: &Record) -> (c: Record)
    ensures
        c@ == r@,
{
    let c = Record {
        record_type: r.record_type.clone(),
        title: r.title.clone(),
        created_at: r.created_at.clone(),
        source_text: r.source_text.clone(),
        final_body: r.final_body.clone(),
        tags: clone_strings(&r.tags),
        date: clone_opt(&r.date),
        notion_page_id: clone_opt(&r.notion_page_id),
        notion_url: clone_opt(&r.notion_url),
        notion_sync_status: r.notion_sync_status.clone(),
        notion_error: clone_opt(&r.notion_error),
        notion_last_synced_at: clone_opt(&r.notion_last_synced_at),
        notion_last_edited_time: clone_opt(&r.notion_last_edited_time),
        notion_last_synced_hash: clone_opt(&r.notion_last_synced_hash),
        json_path: clone_opt(&r.json_path),
        md_path: clone_opt(&r.md_path),
    };
    proof {
        assert(c@ =~= r@);
    }
    c
}

/// The five canonical record types.
pub open spec fn is_canon_type(t: Seq<char>) -> bool {
    t == "decision"@ || t == "worklog"@ || t == "idea"@ || t == "backlog"@ || t == "note"@
}

/// Lowercased and trimmed; anything outside the five canonical types becomes
/// `note`.
pub open spec fn canon_rtype(s: Seq<char>) -> Seq<char> {
    let l = lower_seq(trimmed(s));
    if l == "decision"@ || l == "worklog"@ || l == "idea"@ || l == "backlog"@ || l == "note"@ {
        l
    } else {
        "note"@
    }
}

pub proof fn lemma_canon_is_canon(s: Seq<char>)
    ensures
        is_canon_type(canon_rtype(s)),
{
}

/// Canonical record types are fixed points of normalization.
pub proof fn lemma_canon_fixed(t: Seq<char>)
    requires
        is_canon_type(t),
    ensures
        canon_rtype(t) == t,
{
    if t == "decision"@ {
        reveal_strlit("decision");
        assert(ltrimmed(t) == t);
        assert(rtrimmed(t) == t);
        assert(lower_seq(t) =~= t);
    } else if t == "worklog"@ {
        reveal_strlit("worklog");
        assert(ltrimmed(t) == t);
        assert(rtrimmed(t) == t);
        assert(lower_seq(t) =~= t);
    } else if t == "idea"@ {
        reveal_strlit("idea");
        assert(ltrimmed(t) == t);
        assert(rtrimmed(t) == t);
        assert(lower_seq(t) =~= t);
    } else if t == "backlog"@ {
        reveal_strlit("backlog");
        assert(ltrimmed(t) == t);
        assert(rtrimmed(t) == t);
        assert(lower_seq(t) =~= t);
    } else {
        reveal_strlit("note");
        assert(ltrimmed(t) == t);
        assert(rtrimmed(t) == t);
        assert(lower_seq(t) =~= t);
    }
}

/// Maps any record-type string to one of the five canonical types.
pub fn normalize_record_type(record_type: &str) -> (r: String)
    ensures
        r@ == canon_rtype(record_type@),
        is_canon_type(r@),
{
    let v = chars_vec(record_type);
    let t = trim_chars(&v);
    let l = lower_chars(&t);
    let c0 = chars_vec("decision");
    let c1 = chars_vec("worklog");
    let c2 = chars_vec("idea");
    let c3 = chars_vec("backlog");
    let c4 = chars_vec("note");
    if chars_eq(&l, &c0) || chars_eq(&l, &c1) || chars_eq(&l, &c2) || chars_eq(&l, &c3)
        || chars_eq(&l, &c4) {
        string_from_chars(&l)
    } else {
        String::from_str("note")
    }
}

/// The subdirectory under `records/` that a record type maps to.
pub open spec fn dir_of_type(t: Seq<char>) -> Seq<char> {
    if t == "decision"@ {
        "decisions"@
    } else if t == "worklog"@ {
        "worklogs"@
    } else if t == "idea"@ {
        "ideas"@
    } else if t == "backlog"@ {
        "backlogs"@
    } else if t == "note"@ {
        "other"@
    } else {
        "other"@
    }
}

/// The directory that stores records of this exact type.
pub fn record_dir_by_type(record_type: &str) -> (r: &'static str)
    ensures
        r@ == dir_of_type(record_type@),
{
    let v = chars_vec(record_type);
    if chars_eq(&v, &chars_vec("decision")) {
        "decisions"
    } else if chars_eq(&v, &chars_vec("worklog")) {
        "worklogs"
    } else if chars_eq(&v, &chars_vec("idea")) {
        "ideas"
    } else if chars_eq(&v, &chars_vec("backlog")) {
        "backlogs"
    } else {
        "other"
    }
}

/// What the slug pipeline keeps as-is (after lowering): ASCII letters and
/// digits, hyphens and underscores. Everything else becomes a hyphen.
pub open spec fn slug_map_char(c: char) -> char {
    if is_ascii_lower(c) || is_ascii_upper(c) || is_ascii_digit(c) || c == '-' || c == '_' {
        c
    } else {
        '-'
    }
}

/// Runs of hyphens collapsed to one.
pub open spec fn collapse_dashes(s: Seq<char>) -> Seq<char>
    decreases s.len(),
{
    if s.len() == 0 {
        Seq::empty()
    } else if s.len() >= 2 && s[0] == '-' && s[1] == '-' {
        collapse_dashes(s.drop_first())
    } else {
        seq![s[0]] + collapse_dashes(s.drop_first())
    }
}

pub open spec fn ltrim_dash(s: Seq<char>) -> Seq<char>
    decreases s.len(),
{
    if s.len() > 0 && s[0] == '-' {
        ltrim_dash(s.drop_first())
    } else {
        s
    }
}

pub open spec fn rtrim_dash(s: Seq<char>) -> Seq<char>
    decreases s.len(),
{
    if s.len() > 0 && s.last() == '-' {
        rtrim_dash(s.drop_last())
    } else {
        s
    }
}

/// The slug of a title: lowered, mapped to the slug alphabet, dash runs
/// collapsed, dashes trimmed, `untitled` when empty, at most 48 code points.
pub open spec fn slug_mapped(s: Seq<char>) -> Seq<char> {
    s.map_values(|c: char| slug_map_char(c))
}

pub open spec fn slug_of(s: Seq<char>) -> Seq<char> {
    let t = rtrim_dash(ltrim_dash(collapse_dashes(slug_mapped(lower_seq(s)))));
    if t.len() == 0 {
        "untitled"@
    } else if t.len() > 48 {
        t.subrange(0, 48)
    } else {
        t
    }
}

proof fn lemma_slug_map_push(s: Seq<char>, x: char)
    ensures
        slug_mapped(s.push(x)) == slug_mapped(s).push(slug_map_char(x)),
{
    assert(slug_mapped(s.push(x)) =~= slug_mapped(s).push(slug_map_char(x)));
}

/// A slug is never empty.
pub proof fn lemma_slug_nonempty(s: Seq<char>)
    ensures
        slug_of(s).len() > 0,
{
    reveal_strlit("untitled");
}

fn slug_map_exec(c: char) -> (r: char)
    ensures
        r == slug_map_char(c),
{
    let u = c as u32;
    if (97 <= u && u <= 122) || (65 <= u && u <= 90) || (48 <= u && u <= 57) || c == '-' || c
        == '_' {
        c
    } else {
        '-'
    }
}

fn collapse_push(v: &Vec<char>, from: usize, out: &mut Vec<char>)
    requires
        from <= v.len(),
    ensures
        final(out)@ == old(out)@ + collapse_dashes(v@.skip(from as int)),
    decreases v.len() - from,
{
    let ghost pre = out@;
    let ghost rest = v@.skip(from as int);
    if from == v.len() {
        proof {
            assert(pre + collapse_dashes(rest) =~= pre);
        }
        return ;
    }
    proof {
        assert(rest[0] == v@[from as int]);
        assert(rest.drop_first() =~= v@.skip(from + 1));
        if rest.len() >= 2 {
            assert(rest[1] == v@[from + 1]);
        }
    }
    if v[from] == '-' && from + 1 < v.len() && v[from + 1] == '-' {
        collapse_push(v, from + 1, out);
    } else {
        out.push(v[from]);
        proof {
            assert(out@ =~= pre + seq![rest[0]]);
        }
        collapse_push(v, from + 1, out);
        proof {
            assert((pre + seq![rest[0]]) + collapse_dashes(rest.drop_first()) =~= pre + (seq![
                rest[0],
            ] + collapse_dashes(rest.drop_first())));
        }
    }
}

proof fn lemma_ltrim_dash_step(s: Seq<char>, i: int)
    requires
        0 <= i <= s.len(),
        forall|j: int| 0 <= j < i ==> s[j] == '-',
    ensures
        ltrim_dash(s) == ltrim_dash(s.subrange(i, s.len() as int)),
    decreases i,
{
    if i > 0 {
        lemma_ltrim_dash_step(s, i - 1);
        assert(s.subrange(i - 1, s.len() as int).drop_first() =~= s.subrange(i, s.len() as int));
        assert(s.subrange(i - 1, s.len() as int)[0] == s[i - 1]);
    } else {
        assert(s.subrange(0, s.len() as int) =~= s);
    }
}

proof fn lemma_rtrim_dash_step(s: Seq<char>, j: int)
    requires
        0 <= j <= s.len(),
        forall|k: int| j <= k < s.len() ==> s[k] == '-',
    ensures
        rtrim_dash(s) == rtrim_dash(s.subrange(0, j)),
    decreases s.len() - j,
{
    if j < s.len() {
        lemma_rtrim_dash_step(s, j + 1);
        assert(s.subrange(0, j + 1).drop_last() =~= s.subrange(0, j));
        assert(s.subrange(0, j + 1).last() == s[j]);
    } else {
        assert(s.subrange(0, s.len() as int) =~= s);
    }
}

fn trim_dashes(v: &Vec<char>) -> (r: Vec<char>)
    ensures
        r@ == rtrim_dash(ltrim_dash(v@)),
{
    let n = v.len();
    let mut start: usize = 0;
    while start < n && v[start] == '-'
        invariant
            n == v.len(),
            start <= n,
            forall|j: int| 0 <= j < start ==> v@[j] == '-',
        decreases n - start,
    {
        start = start + 1;
    }
    proof {
        lemma_ltrim_dash_step(v@, start as int);
        if start < n {
            assert(v@.subrange(start as int, n as int)[0] == v@[start as int]);
        } else {
            assert(v@.subrange(start as int, n as int).len() == 0);
        }
        assert(ltrim_dash(v@) == v@.subrange(start as int, n as int));
    }
    let mut end: usize = n;
    while end > start && v[end - 1] == '-'
        invariant
            n == v.len(),
            start <= end <= n,
            forall|k: int| end <= k < n ==> v@[k] == '-',
        decreases end,
    {
        end = end - 1;
    }
    proof {
        let lt = v@.subrange(start as int, n as int);
        lemma_rtrim_dash_step(lt, end - start);
        assert(lt.subrange(0, end - start) =~= v@.subrange(start as int, end as int));
        if end > start {
            assert(lt.subrange(0, end - start).last() == v@[end - 1]);
            assert(rtrim_dash(v@.subrange(start as int, end as int)) == v@.subrange(
                start as int,
                end as int,
            ));
        } else {
            assert(v@.subrange(start as int, end as int).len() == 0);
        }
    }
    crate::util::copy_range(v, start, end)
}

/// Turns a title into a filename-safe slug.
pub fn slugify(value: &str) -> (r: String)
    ensures
        r@ == slug_of(value@),
{
    let v = chars_vec(value);
    let l = lower_chars(&v);
    let mut mapped: Vec<char> = Vec::new();
    let mut i: usize = 0;
    while i < l.len()
        invariant
            i <= l.len(),
            mapped@ == slug_mapped(l@.subrange(0, i as int)),
        decreases l.len() - i,
    {
        let ghost pre = mapped@;
        mapped.push(slug_map_exec(l[i]));
        i = i + 1;
        proof {
            lemma_slug_map_push(l@.subrange(0, i - 1), l@[i - 1]);
            assert(l@.subrange(0, i as int) =~= l@.subrange(0, i - 1).push(l@[i - 1]));
            assert(mapped@ == pre.push(slug_map_char(l@[i - 1])));
        }
    }
    proof {
        assert(l@.subrange(0, l@.len() as int) =~= l@);
    }
    let mut collapsed: Vec<char> = Vec::new();
    collapse_push(&mapped, 0, &mut collapsed);
    proof {
        assert(mapped@.skip(0) =~= mapped@);
    }
    let t = trim_dashes(&collapsed);
    if t.len() == 0 {
        String::from_str("untitled")
    } else if t.len() > 48 {
        let cut = crate::util::copy_range(&t, 0, 48);
        string_from_chars(&cut)
    } else {
        string_from_chars(&t)
    }
}

/// The year of a clock reading, clamped below at zero.
pub open spec fn stamp_year(st: ClockStamp) -> nat {
    if st.year < 0 {
        0
    } else {
        st.year as nat
    }
}

/// The record filename for one clock reading:
/// `{yyyymmdd_hhmmss}_{type}_{slug(title)}`.
pub open spec fn filename_seq(st: ClockStamp, rt: Seq<char>, title: Seq<char>) -> Seq<char> {
    zero_padded(stamp_year(st), 4) + zero_padded(st.month as nat, 2) + zero_padded(
        st.day as nat,
        2,
    ) + seq!['_'] + zero_padded(st.hour as nat, 2) + zero_padded(st.minute as nat, 2)
        + zero_padded(st.second as nat, 2) + seq!['_'] + rt + seq!['_'] + slug_of(title)
}

fn push_all(out: &mut Vec<char>, add: &Vec<char>)
    ensures
        final(out)@ == old(out)@ + add@,
{
    let ghost pre = out@;
    let mut i: usize = 0;
    while i < add.len()
        invariant
            i <= add.len(),
            out@ == pre + add@.subrange(0, i as int),
        decreases add.len() - i,
    {
        out.push(add[i]);
        i = i + 1;
        proof {
            assert(out@ =~= pre + add@.subrange(0, i as int));
        }
    }
    proof {
        assert(add@.subrange(0, add@.len() as int) =~= add@);
    }
}

/// Builds the filename stem for a record from one clock reading.
pub fn filename_from_stamp(st: &ClockStamp, record_type: &str, title: &str) -> (r: String)
    requires
        st.wf(),
    ensures
        r@ == filename_seq(*st, record_type@, title@),
{
    let y: u64 = if st.year < 0 {
        0
    } else {
        st.year as u64
    };
    let mut out = u64_zero_padded(y, 4);
    let mo = u64_zero_padded(st.month, 2);
    push_all(&mut out, &mo);
    let d = u64_zero_padded(st.day, 2);
    push_all(&mut out, &d);
    out.push('_');
    let h = u64_zero_padded(st.hour, 2);
    push_all(&mut out, &h);
    let mi = u64_zero_padded(st.minute, 2);
    push_all(&mut out, &mi);
    let se = u64_zero_padded(st.second, 2);
    push_all(&mut out, &se);
    out.push('_');
    let rt = chars_vec(record_type);
    push_all(&mut out, &rt);
    out.push('_');
    let slug = slugify(title);
    let sl = chars_vec(slug.as_str());
    push_all(&mut out, &sl);
    proof {
        assert(out@ =~= filename_seq(*st, record_type@, title@));
    }
    string_from_chars(&out)
}

/// Builds a fresh filename stem from the current wall clock.
pub fn generate_filename(record_type: &str, title: &str) -> (r: String)
    ensures
        exists|st: ClockStamp| st.wf() && r@ == filename_seq(st, record_type@, title@),
{
    let st = now_stamp();
    filename_from_stamp(&st, record_type, title)
}

/// The glyph that heads a record's markdown rendering.
pub open spec fn emoji_of(t: Seq<char>) -> Seq<char> {
    if t == "decision"@ {
        "\u{2696}\u{fe0f}"@
    } else if t == "worklog"@ {
        "\u{1f4dd}"@
    } else if t == "idea"@ {
        "\u{1f4a1}"@
    } else if t == "backlog"@ {
        "\u{1f4cb}"@
    } else {
        "\u{1f4c4}"@
    }
}

/// The full markdown rendering of a record.
pub open spec fn md_of(r: RecordV) -> Seq<char> {
    "# "@ + emoji_of(r.record_type) + " "@ + r.title + "\n\n**Type:** "@ + upper_seq(
        r.record_type,
    ) + "\n**Created:** "@ + r.created_at + (match r.date {
        Some(d) => "\n**Date:** "@ + d,
        None => Seq::empty(),
    }) + (if r.tags.len() > 0 {
        "\n**Tags:** "@ + join_sep(r.tags, ", "@)
    } else {
        Seq::empty()
    }) + (match r.notion_url {
        Some(u) => "\n**Notion:** "@ + u,
        None => Seq::empty(),
    }) + "\n\n---\n\n"@ + r.final_body + "\n\n---\n\n## Original Input\n\n> "@ + r.source_text
}

/// Renders a record to markdown.
#[verifier::rlimit(100)]
pub fn render_markdown(record: &Record) -> (r: String)
    ensures
        r@ == md_of(record@),
{
    let mut out = String::new();
    out.append("# ");
    if chars_eq(&chars_vec(record.record_type.as_str()), &chars_vec("decision")) {
        out.append("\u{2696}\u{fe0f}");
    } else if chars_eq(&chars_vec(record.record_type.as_str()), &chars_vec("worklog")) {
        out.append("\u{1f4dd}");
    } else if chars_eq(&chars_vec(record.record_type.as_str()), &chars_vec("idea")) {
        out.append("\u{1f4a1}");
    } else if chars_eq(&chars_vec(record.record_type.as_str()), &chars_vec("backlog")) {
        out.append("\u{1f4cb}");
    } else {
        out.append("\u{1f4c4}");
    }
    out.append(" ");
    out.append(record.title.as_str());
    out.append("\n\n**Type:** ");
    let up = upper_chars(&chars_vec(record.record_type.as_str()));
    let ups = string_from_chars(&up);
    out.append(ups.as_str());
    out.append("\n**Created:** ");
    out.append(record.created_at.as_str());
    match &record.date {
        Some(d) => {
            out.append("\n**Date:** ");
            out.append(d.as_str());
        },
        None => {},
    }
    if record.tags.len() > 0 {
        out.append("\n**Tags:** ");
        let tj = join_with(&record.tags, ", ");
        out.append(tj.as_str());
    }
    match &record.notion_url {
        Some(u) => {
            out.append("\n**Notion:** ");
            out.append(u.as_str());
        },
        None => {},
    }
    out.append("\n\n---\n\n");
    out.append(record.final_body.as_str());
    out.append("\n\n---\n\n## Original Input\n\n> ");
    out.append(record.source_text.as_str());
    proof {
        assert(out@ =~= md_of(record@));
    }
    out
}

} // verus!
