//! The remote notes database's schema quirks, handled as plain values: the
//! case-insensitive property discovery, the schema-driven property map a push
//! sends, and the collapsing of a page's blocks into the two body texts.
//! The caller fetches pages and schemas and flattens rich text before
//! handing them in.

use vstd::prelude::*;
use vstd::string::{StringExecFns, StrSliceExecFns};
use crate::records::{clone_strings, opt_v, Record};
use crate::store::or_else;
use crate::text::{chars_eq, chars_vec, lower_chars, lower_seq, string_from_chars, trim_chars, trimmed};
use crate::util::{copy_range, join_sep, join_with, strs};

verus! {

/// One property of the remote database's schema: its user-chosen name and
/// its type tag.
pub struct PropertySchema {
    pub name: String,
    pub prop_type: String,
}

/// The first schema property whose name equals the candidate,
/// case-insensitively; candidates are tried in order.
pub open spec fn found_prop(
    schema: Seq<PropertySchema>,
    candidates: Seq<Seq<char>>,
) -> Option<PropertySchema>
    decreases candidates.len(),
{
    if candidates.len() == 0 {
        None
    } else {
        match found_prop_one(schema, candidates[0]) {
            Some(p) => Some(p),
            None => found_prop(schema, candidates.drop_first()),
        }
    }
}

pub open spec fn found_prop_one(schema: Seq<PropertySchema>, candidate: Seq<char>) -> Option<
    PropertySchema,
>
    decreases schema.len(),
{
    if schema.len() == 0 {
        None
    } else if lower_seq(schema[0].name@) == lower_seq(candidate) {
        Some(schema[0])
    } else {
        found_prop_one(schema.drop_first(), candidate)
    }
}

fn find_prop_one(schema: &Vec<PropertySchema>, i: usize, candidate: &Vec<char>) -> (r: Option<
    usize,
>)
    requires
        i <= schema.len(),
    ensures
        (r matches Some(j) ==> i <= j < schema@.len() && found_prop_one(
            schema@.skip(i as int),
            candidate@,
        ) == Some(schema@[j as int])),
        r is None ==> found_prop_one(schema@.skip(i as int), candidate@) is None,
    decreases schema.len() - i,
{
    if i == schema.len() {
        return None;
    }
    proof {
        assert(schema@.skip(i as int)[0] == schema@[i as int]);
        assert(schema@.skip(i as int).drop_first() =~= schema@.skip(i + 1));
    }
    let nv = chars_vec(schema[i].name.as_str());
    let nl = lower_chars(&nv);
    let cl = lower_chars(candidate);
    if chars_eq(&nl, &cl) {
        Some(i)
    } else {
        find_prop_one(schema, i + 1, candidate)
    }
}

/// Finds a schema property by its candidate names, case-insensitively.
pub fn notion_find_property_by_candidates(
    schema: &Vec<PropertySchema>,
    candidates: &Vec<String>,
) -> (r: Option<(String, String)>)
    ensures
        (match (r, found_prop(schema@, strs(candidates@))) {
            (Some(p), Some(s)) => p.0@ == s.name@ && p.1@ == s.prop_type@,
            (None, None) => true,
            _ => false,
        }),
{
    proof {
        assert(strs(candidates@).skip(0) =~= strs(candidates@));
    }
    find_candidates_from(schema, candidates, 0)
}

fn find_candidates_from(
    schema: &Vec<PropertySchema>,
    candidates: &Vec<String>,
    i: usize,
) -> (r: Option<(String, String)>)
    requires
        i <= candidates.len(),
    ensures
        (match (r, found_prop(schema@, strs(candidates@).skip(i as int))) {
            (Some(p), Some(s)) => p.0@ == s.name@ && p.1@ == s.prop_type@,
            (None, None) => true,
            _ => false,
        }),
    decreases candidates.len() - i,
{
    if i == candidates.len() {
        return None;
    }
    proof {
        assert(strs(candidates@).skip(i as int)[0] == strs(candidates@)[i as int]);
        assert(strs(candidates@).skip(i as int).drop_first() =~= strs(candidates@).skip(i + 1));
        assert(schema@.skip(0) =~= schema@);
    }
    let cv = chars_vec(candidates[i].as_str());
    match find_prop_one(schema, 0, &cv) {
        Some(j) => Some((schema[j].name.clone(), schema[j].prop_type.clone())),
        None => find_candidates_from(schema, candidates, i + 1),
    }
}

/// The schema's title property: the first whose type is `title`.
pub open spec fn found_title_prop(schema: Seq<PropertySchema>) -> Option<PropertySchema>
    decreases schema.len(),
{
    if schema.len() == 0 {
        None
    } else if schema[0].prop_type@ == "title"@ {
        Some(schema[0])
    } else {
        found_title_prop(schema.drop_first())
    }
}

/// Finds the title property's name in a database schema.
pub fn notion_find_title_property_name(schema: &Vec<PropertySchema>) -> (r: Option<String>)
    ensures
        (match (r, found_title_prop(schema@)) {
            (Some(n), Some(s)) => n@ == s.name@,
            (None, None) => true,
            _ => false,
        }),
{
    proof {
        assert(schema@.skip(0) =~= schema@);
    }
    find_title_from(schema, 0)
}

fn find_title_from(schema: &Vec<PropertySchema>, i: usize) -> (r: Option<String>)
    requires
        i <= schema.len(),
    ensures
        (match (r, found_title_prop(schema@.skip(i as int))) {
            (Some(n), Some(s)) => n@ == s.name@,
            (None, None) => true,
            _ => false,
        }),
    decreases schema.len() - i,
{
    if i == schema.len() {
        return None;
    }
    proof {
        assert(schema@.skip(i as int)[0] == schema@[i as int]);
        assert(schema@.skip(i as int).drop_first() =~= schema@.skip(i + 1));
    }
    let tv = chars_vec(schema[i].prop_type.as_str());
    if chars_eq(&tv, &chars_vec("title")) {
        Some(schema[i].name.clone())
    } else {
        find_title_from(schema, i + 1)
    }
}

/// One block of a page, flattened to text by the caller.
pub struct BlockText {
    pub is_heading: bool,
    pub text: String,
}

/// The collapsed body texts of a page's blocks: text after a `Final Body`
/// heading feeds the final body, text after `Source Text` the source, and
/// text before either heading is kept as a fallback for a page without a
/// `Final Body` section. Section is tracked as 0 (none), 1 (final) or 2
/// (source).
pub open spec fn collected_sections(blocks: Seq<BlockText>, sec: int) -> (
    Seq<Seq<char>>,
    Seq<Seq<char>>,
    Seq<Seq<char>>,
)
    decreases blocks.len(),
{
    if blocks.len() == 0 {
        (Seq::empty(), Seq::empty(), Seq::empty())
    } else {
        let t = trimmed(blocks[0].text@);
        if t.len() == 0 {
            collected_sections(blocks.drop_first(), sec)
        } else if blocks[0].is_heading && lower_seq(t) == "final body"@ {
            collected_sections(blocks.drop_first(), 1)
        } else if blocks[0].is_heading && lower_seq(t) == "source text"@ {
            collected_sections(blocks.drop_first(), 2)
        } else {
            let rest = collected_sections(blocks.drop_first(), sec);
            if sec == 1 {
                (seq![t] + rest.0, rest.1, rest.2)
            } else if sec == 2 {
                (rest.0, seq![t] + rest.1, rest.2)
            } else {
                (rest.0, rest.1, seq![t] + rest.2)
            }
        }
    }
}

/// The two body texts a page collapses to.
pub open spec fn content_sections_of(blocks: Seq<BlockText>) -> (Seq<char>, Seq<char>) {
    let c = collected_sections(blocks, 0);
    (
        (if c.0.len() > 0 {
            join_sep(c.0, "\n\n"@)
        } else {
            join_sep(c.2, "\n\n"@)
        }),
        join_sep(c.1, "\n\n"@),
    )
}

fn collect_sections_from(
    blocks: &Vec<BlockText>,
    i: usize,
    sec: u8,
) -> (r: (Vec<String>, Vec<String>, Vec<String>))
    requires
        i <= blocks.len(),
        sec <= 2,
    ensures
        ({
            let c = collected_sections(blocks@.skip(i as int), sec as int);
            strs(r.0@) == c.0 && strs(r.1@) == c.1 && strs(r.2@) == c.2
        }),
    decreases blocks.len() - i,
{
    if i == blocks.len() {
        let a: Vec<String> = Vec::new();
        let b: Vec<String> = Vec::new();
        let c: Vec<String> = Vec::new();
        proof {
            assert(strs(Seq::<String>::empty()) =~= Seq::<Seq<char>>::empty());
        }
        return (a, b, c);
    }
    proof {
        assert(blocks@.skip(i as int)[0] == blocks@[i as int]);
        assert(blocks@.skip(i as int).drop_first() =~= blocks@.skip(i + 1));
    }
    let tv = chars_vec(blocks[i].text.as_str());
    let t = trim_chars(&tv);
    if t.len() == 0 {
        return collect_sections_from(blocks, i + 1, sec);
    }
    let tl = lower_chars(&t);
    if blocks[i].is_heading && chars_eq(&tl, &chars_vec("final body")) {
        return collect_sections_from(blocks, i + 1, 1);
    }
    if blocks[i].is_heading && chars_eq(&tl, &chars_vec("source text")) {
        return collect_sections_from(blocks, i + 1, 2);
    }
    let (mut fa, mut so, mut fb) = collect_sections_from(blocks, i + 1, sec);
    let line = string_from_chars(&t);
    if sec == 1 {
        let ghost pre = strs(fa@);
        fa.insert(0, line);
        proof {
            assert(strs(fa@) =~= seq![trimmed(blocks@[i as int].text@)] + pre);
        }
    } else if sec == 2 {
        let ghost pre = strs(so@);
        so.insert(0, line);
        proof {
            assert(strs(so@) =~= seq![trimmed(blocks@[i as int].text@)] + pre);
        }
    } else {
        let ghost pre = strs(fb@);
        fb.insert(0, line);
        proof {
            assert(strs(fb@) =~= seq![trimmed(blocks@[i as int].text@)] + pre);
        }
    }
    (fa, so, fb)
}

/// Collapses a page's blocks into its final body and source text.
pub fn notion_extract_content_sections(blocks: &Vec<BlockText>) -> (r: (String, String))
    ensures
        r.0@ == content_sections_of(blocks@).0,
        r.1@ == content_sections_of(blocks@).1,
{
    proof {
        assert(blocks@.skip(0) =~= blocks@);
    }
    let (fa, so, fb) = collect_sections_from(blocks, 0, 0);
    let final_body = if fa.len() > 0 {
        join_with(&fa, "\n\n")
    } else {
        join_with(&fb, "\n\n")
    };
    let source_text = join_with(&so, "\n\n");
    proof {
        let c = collected_sections(blocks@, 0);
        assert(strs(fa@).len() == fa@.len());
    }
    (final_body, source_text)
}

/// The first `n` code points of a text, as the remote's field limits demand.
pub fn take_chars(s: &str, n: usize) -> (r: String)
    ensures
        r@ == (if s@.len() <= n {
            s@
        } else {
            s@.subrange(0, n as int)
        }),
{
    let v = chars_vec(s);
    if v.len() <= n {
        string_from_chars(&v)
    } else {
        let cut = copy_range(&v, 0, n);
        string_from_chars(&cut)
    }
}

/// One property a push sets, in the remote's own value shapes.
pub enum NotionPropertyValue {
    TitleText(String),
    SelectName(String),
    RichText(String),
    MultiSelect(Vec<String>),
    DateStart(String),
}

pub struct NotionPropertyEntry {
    pub name: String,
    pub value: NotionPropertyValue,
}

/// The candidate names each record field may live under in the remote
/// schema.
pub open spec fn type_candidates() -> Seq<Seq<char>> {
    seq!["Type"@, "Record Type"@]
}

pub open spec fn tag_candidates() -> Seq<Seq<char>> {
    seq!["Tags"@, "Tag"@]
}

pub open spec fn date_candidates() -> Seq<Seq<char>> {
    seq!["Date"@]
}

pub open spec fn created_candidates() -> Seq<Seq<char>> {
    seq!["Created At"@, "Created"@, "Timestamp"@]
}

/// A text capped at `n` code points.
pub open spec fn capped(s: Seq<char>, n: int) -> Seq<char> {
    if s.len() <= n {
        s
    } else {
        s.subrange(0, n)
    }
}

/// Whether the schema carries a recognized property for each record field:
/// one entry is sent exactly when it does.
pub open spec fn type_entry_count(schema: Seq<PropertySchema>) -> int {
    match found_prop(schema, type_candidates()) {
        Some(p) => if p.prop_type@ == "select"@ || p.prop_type@ == "rich_text"@ {
            1
        } else {
            0
        },
        None => 0,
    }
}

pub open spec fn tags_entry_count(schema: Seq<PropertySchema>) -> int {
    match found_prop(schema, tag_candidates()) {
        Some(p) => if p.prop_type@ == "multi_select"@ || p.prop_type@ == "rich_text"@ {
            1
        } else {
            0
        },
        None => 0,
    }
}

pub open spec fn date_entry_count(schema: Seq<PropertySchema>) -> int {
    match found_prop(schema, date_candidates()) {
        Some(p) => if p.prop_type@ == "date"@ {
            1
        } else {
            0
        },
        None => 0,
    }
}

pub open spec fn created_entry_count(schema: Seq<PropertySchema>) -> int {
    match found_prop(schema, created_candidates()) {
        Some(p) => if p.prop_type@ == "date"@ || p.prop_type@ == "rich_text"@ {
            1
        } else {
            0
        },
        None => 0,
    }
}

/// The start value a date property gets: the record's date, else the day of
/// its creation time, else today.
pub open spec fn date_start_of(rv: crate::records::RecordV, today: Seq<char>) -> Seq<char> {
    match rv.date {
        Some(d) => d,
        None => if rv.created_at.len() >= 10 && crate::dates::valid_date_seq(
            rv.created_at.subrange(0, 10),
        ) {
            rv.created_at.subrange(0, 10)
        } else {
            today
        },
    }
}

pub open spec fn type_entry_ok(
    e: NotionPropertyEntry,
    schema: Seq<PropertySchema>,
    rv: crate::records::RecordV,
) -> bool {
    match found_prop(schema, type_candidates()) {
        Some(p) => e.name@ == p.name@ && (if p.prop_type@ == "select"@ {
            e.value matches NotionPropertyValue::SelectName(t) && t@ == rv.record_type
        } else {
            e.value matches NotionPropertyValue::RichText(t) && t@ == rv.record_type
        }),
        None => false,
    }
}

pub open spec fn tags_entry_ok(
    e: NotionPropertyEntry,
    schema: Seq<PropertySchema>,
    rv: crate::records::RecordV,
) -> bool {
    match found_prop(schema, tag_candidates()) {
        Some(p) => e.name@ == p.name@ && (if p.prop_type@ == "multi_select"@ {
            e.value matches NotionPropertyValue::MultiSelect(ts) && strs(ts@) == rv.tags
        } else {
            e.value matches NotionPropertyValue::RichText(t) && t@ == join_sep(rv.tags, ", "@)
        }),
        None => false,
    }
}

pub open spec fn date_entry_ok(
    e: NotionPropertyEntry,
    schema: Seq<PropertySchema>,
    rv: crate::records::RecordV,
    today: Seq<char>,
) -> bool {
    match found_prop(schema, date_candidates()) {
        Some(p) => e.name@ == p.name@ && (e.value matches NotionPropertyValue::DateStart(d) && d@
            == date_start_of(rv, today)),
        None => false,
    }
}

pub open spec fn created_entry_ok(
    e: NotionPropertyEntry,
    schema: Seq<PropertySchema>,
    rv: crate::records::RecordV,
) -> bool {
    match found_prop(schema, created_candidates()) {
        Some(p) => e.name@ == p.name@ && (if p.prop_type@ == "date"@ {
            e.value matches NotionPropertyValue::DateStart(d) && d@ == rv.created_at
        } else {
            e.value matches NotionPropertyValue::RichText(t) && t@ == rv.created_at
        }),
        None => false,
    }
}

/// The property map a push sends: always the title (capped at 1800 code
/// points), then one entry for each of the type, tags, date and created-at
/// fields exactly when the schema carries a recognized property for it,
/// found case-insensitively by its candidate names. `today` backs a date
/// property when the record has neither a date nor a dated creation time.
#[verifier::rlimit(100)]
pub fn notion_build_properties(
    schema: &Vec<PropertySchema>,
    title_property_name: &str,
    record: &Record,
    today: &str,
) -> (r: Vec<NotionPropertyEntry>)
    ensures
        ({
            let tc = type_entry_count(schema@);
            let gc = tags_entry_count(schema@);
            let dc = date_entry_count(schema@);
            let cc = created_entry_count(schema@);
            &&& r@.len() == 1 + tc + gc + dc + cc
            &&& r@[0].name@ == title_property_name@
            &&& (r@[0].value matches NotionPropertyValue::TitleText(t) && t@ == capped(
                record@.title,
                1800,
            ))
            &&& (tc == 1 ==> type_entry_ok(r@[1], schema@, record@))
            &&& (gc == 1 ==> tags_entry_ok(r@[1 + tc], schema@, record@))
            &&& (dc == 1 ==> date_entry_ok(r@[1 + tc + gc], schema@, record@, today@))
            &&& (cc == 1 ==> created_entry_ok(r@[1 + tc + gc + dc], schema@, record@))
        }),
{
    let mut entries: Vec<NotionPropertyEntry> = Vec::new();
    entries.push(
        NotionPropertyEntry {
            name: String::from_str(title_property_name),
            value: NotionPropertyValue::TitleText(take_chars(record.title.as_str(), 1800)),
        },
    );
    let mut type_cands: Vec<String> = Vec::new();
    type_cands.push(String::from_str("Type"));
    type_cands.push(String::from_str("Record Type"));
    proof {
        assert(strs(type_cands@) =~= type_candidates());
    }
    match notion_find_property_by_candidates(schema, &type_cands) {
        Some((name, kind)) => {
            let kv = chars_vec(kind.as_str());
            if chars_eq(&kv, &chars_vec("select")) {
                entries.push(
                    NotionPropertyEntry {
                        name,
                        value: NotionPropertyValue::SelectName(record.record_type.clone()),
                    },
                );
            } else if chars_eq(&kv, &chars_vec("rich_text")) {
                entries.push(
                    NotionPropertyEntry {
                        name,
                        value: NotionPropertyValue::RichText(record.record_type.clone()),
                    },
                );
            }
        },
        None => {},
    }
    proof {
        assert(entries@.len() == 1 + type_entry_count(schema@));
        assert(type_entry_count(schema@) == 1 ==> type_entry_ok(
            entries@[1],
            schema@,
            record@,
        ));
    }
    let mut tag_cands: Vec<String> = Vec::new();
    tag_cands.push(String::from_str("Tags"));
    tag_cands.push(String::from_str("Tag"));
    proof {
        assert(strs(tag_cands@) =~= tag_candidates());
    }
    match notion_find_property_by_candidates(schema, &tag_cands) {
        Some((name, kind)) => {
            let kv = chars_vec(kind.as_str());
            if chars_eq(&kv, &chars_vec("multi_select")) {
                entries.push(
                    NotionPropertyEntry {
                        name,
                        value: NotionPropertyValue::MultiSelect(clone_strings(&record.tags)),
                    },
                );
            } else if chars_eq(&kv, &chars_vec("rich_text")) {
                entries.push(
                    NotionPropertyEntry {
                        name,
                        value: NotionPropertyValue::RichText(join_with(&record.tags, ", ")),
                    },
                );
            }
        },
        None => {},
    }
    proof {
        assert(entries@.len() == 1 + type_entry_count(schema@) + tags_entry_count(schema@));
        assert(tags_entry_count(schema@) == 1 ==> tags_entry_ok(
            entries@[1 + type_entry_count(schema@)],
            schema@,
            record@,
        ));
    }
    let mut date_cands: Vec<String> = Vec::new();
    date_cands.push(String::from_str("Date"));
    proof {
        assert(strs(date_cands@) =~= date_candidates());
    }
    match notion_find_property_by_candidates(schema, &date_cands) {
        Some((name, kind)) => {
            let kv = chars_vec(kind.as_str());
            if chars_eq(&kv, &chars_vec("date")) {
                let start: String = match &record.date {
                    Some(d) => d.clone(),
                    None => match crate::dates::extract_day(record.created_at.as_str()) {
                        Some(day) => day,
                        None => String::from_str(today),
                    },
                };
                entries.push(
                    NotionPropertyEntry { name, value: NotionPropertyValue::DateStart(start) },
                );
            }
        },
        None => {},
    }
    proof {
        assert(entries@.len() == 1 + type_entry_count(schema@) + tags_entry_count(schema@)
            + date_entry_count(schema@));
        assert(date_entry_count(schema@) == 1 ==> date_entry_ok(
            entries@[1 + type_entry_count(schema@) + tags_entry_count(schema@)],
            schema@,
            record@,
            today@,
        ));
    }
    let mut created_cands: Vec<String> = Vec::new();
    created_cands.push(String::from_str("Created At"));
    created_cands.push(String::from_str("Created"));
    created_cands.push(String::from_str("Timestamp"));
    proof {
        assert(strs(created_cands@) =~= created_candidates());
    }
    match notion_find_property_by_candidates(schema, &created_cands) {
        Some((name, kind)) => {
            let kv = chars_vec(kind.as_str());
            if chars_eq(&kv, &chars_vec("date")) {
                entries.push(
                    NotionPropertyEntry {
                        name,
                        value: NotionPropertyValue::DateStart(record.created_at.clone()),
                    },
                );
            } else if chars_eq(&kv, &chars_vec("rich_text")) {
                entries.push(
                    NotionPropertyEntry {
                        name,
                        value: NotionPropertyValue::RichText(record.created_at.clone()),
                    },
                );
            }
        },
        None => {},
    }
    entries
}

/// A body text as a page block carries it: `(empty)` when blank, capped at
/// 1800 code points.
pub open spec fn block_body_of(s: Seq<char>) -> Seq<char> {
    capped(
        (if trimmed(s).len() == 0 {
            "(empty)"@
        } else {
            s
        }),
        1800,
    )
}

/// The children block list a page create sends: a `Final Body` heading and
/// paragraph, then a `Source Text` heading and paragraph, each text capped at
/// 1800 code points and blank bodies spelled `(empty)`.
pub fn notion_build_children(record: &Record) -> (r: Vec<BlockText>)
    ensures
        r@.len() == 4,
        r@[0].is_heading && r@[0].text@ == "Final Body"@,
        !r@[1].is_heading && r@[1].text@ == block_body_of(record@.final_body),
        r@[2].is_heading && r@[2].text@ == "Source Text"@,
        !r@[3].is_heading && r@[3].text@ == block_body_of(record@.source_text),
{
    let final_body: String = if crate::text::is_blank(record.final_body.as_str()) {
        String::from_str("(empty)")
    } else {
        record.final_body.clone()
    };
    let source_text: String = if crate::text::is_blank(record.source_text.as_str()) {
        String::from_str("(empty)")
    } else {
        record.source_text.clone()
    };
    let mut r: Vec<BlockText> = Vec::new();
    r.push(BlockText { is_heading: true, text: String::from_str("Final Body") });
    r.push(BlockText { is_heading: false, text: take_chars(final_body.as_str(), 1800) });
    r.push(BlockText { is_heading: true, text: String::from_str("Source Text") });
    r.push(BlockText { is_heading: false, text: take_chars(source_text.as_str(), 1800) });
    r
}

} // verus!
