//! Path strings of the workspace: parents and components, extension swaps,
//! the Central Home detection policy and the fixed directory skeleton.
//!
//! Paths are plain `/`-separated strings; the caller hands them in already
//! absolute.

use vstd::prelude::*;
use vstd::string::StringExecFns;
use crate::text::{chars_vec, chars_eq, string_from_chars};
use crate::util::copy_range;

verus! {

/// Index of the last occurrence of `c` in `s`, or -1 when absent.
pub open spec fn rfind_idx(s: Seq<char>, c: char) -> int
    decreases s.len(),
{
    if s.len() == 0 {
        -1
    } else if s.last() == c {
        s.len() - 1
    } else {
        rfind_idx(s.drop_last(), c)
    }
}

/// Scan for the last occurrence of `c` in `v`.
pub fn rfind_char(v: &Vec<char>, c: char) -> (r: Option<usize>)
    ensures
        r matches Some(i) ==> i < v.len() && rfind_idx(v@, c) == i,
        r is None ==> rfind_idx(v@, c) == -1,
{
    proof {
        assert(v@.subrange(0, v@.len() as int) =~= v@);
    }
    let mut i: usize = v.len();
    while i > 0
        invariant
            i <= v.len(),
            rfind_idx(v@, c) == rfind_idx(v@.subrange(0, i as int), c),
        decreases i,
    {
        proof {
            assert(v@.subrange(0, i as int).last() == v@[i - 1]);
            assert(v@.subrange(0, i as int).drop_last() =~= v@.subrange(0, i - 1));
        }
        if v[i - 1] == c {
            return Some(i - 1);
        }
        i = i - 1;
    }
    proof {
        assert(v@.subrange(0, 0) =~= Seq::<char>::empty());
    }
    None
}

/// Everything before the last `/`; empty when the path has no separator.
pub open spec fn parent_seq(p: Seq<char>) -> Seq<char> {
    if rfind_idx(p, '/') < 0 {
        Seq::empty()
    } else {
        p.subrange(0, rfind_idx(p, '/'))
    }
}

/// Everything after the last `/`; the whole path when it has no separator.
pub open spec fn last_component(p: Seq<char>) -> Seq<char> {
    if rfind_idx(p, '/') < 0 {
        p
    } else {
        p.subrange(rfind_idx(p, '/') + 1, p.len() as int)
    }
}

/// Splits a path into its parent and its last component.
pub fn split_parent(p: &Vec<char>) -> (r: (Vec<char>, Vec<char>))
    ensures
        r.0@ == parent_seq(p@),
        r.1@ == last_component(p@),
{
    match rfind_char(p, '/') {
        Some(i) => (copy_range(p, 0, i), copy_range(p, i + 1, p.len())),
        None => {
            let empty: Vec<char> = Vec::new();
            (empty, copy_range(p, 0, p.len()))
        },
    }
}

/// The path with its extension (everything after the last `.` of the last
/// component) replaced by `ext`; when the last component has no `.`, the
/// extension is appended.
pub open spec fn with_ext(p: Seq<char>, ext: Seq<char>) -> Seq<char> {
    let dot = rfind_idx(p, '.');
    let slash = rfind_idx(p, '/');
    if dot > slash {
        p.subrange(0, dot + 1) + ext
    } else {
        p + seq!['.'] + ext
    }
}

/// Replaces the path's extension.
pub fn path_with_ext(p: &str, ext: &str) -> (r: String)
    ensures
        r@ == with_ext(p@, ext@),
{
    let v = chars_vec(p);
    let e = chars_vec(ext);
    let dot = rfind_char(&v, '.');
    let slash = rfind_char(&v, '/');
    let cut: Option<usize> = match (dot, slash) {
        (Some(d), Some(s)) => if d > s {
            Some(d)
        } else {
            None
        },
        (Some(d), None) => Some(d),
        _ => None,
    };
    let mut out: Vec<char>;
    match cut {
        Some(d) => {
            out = copy_range(&v, 0, d + 1);
        },
        None => {
            out = copy_range(&v, 0, v.len());
            out.push('.');
            proof {
                assert(v@.subrange(0, v@.len() as int) =~= v@);
                assert(out@ =~= v@ + seq!['.']);
            }
        },
    }
    let ghost base = out@;
    let mut i: usize = 0;
    while i < e.len()
        invariant
            i <= e.len(),
            out@ == base + e@.subrange(0, i as int),
        decreases e.len() - i,
    {
        out.push(e[i]);
        i = i + 1;
        proof {
            assert(out@ =~= base + e@.subrange(0, i as int));
        }
    }
    proof {
        assert(e@.subrange(0, e@.len() as int) =~= e@);
        assert(out@ =~= with_ext(p@, ext@));
    }
    string_from_chars(&out)
}

/// Joins a base path and one further component.
pub open spec fn joined(base: Seq<char>, comp: Seq<char>) -> Seq<char> {
    base + seq!['/'] + comp
}

/// Appends one component to a path.
pub fn path_join(base: &str, comp: &str) -> (r: String)
    ensures
        r@ == joined(base@, comp@),
{
    let mut out = chars_vec(base);
    out.push('/');
    let c = chars_vec(comp);
    let ghost pre = out@;
    let mut i: usize = 0;
    while i < c.len()
        invariant
            i <= c.len(),
            out@ == pre + c@.subrange(0, i as int),
        decreases c.len() - i,
    {
        out.push(c[i]);
        i = i + 1;
        proof {
            assert(out@ =~= pre + c@.subrange(0, i as int));
        }
    }
    proof {
        assert(c@.subrange(0, c@.len() as int) =~= c@);
        assert(out@ =~= joined(base@, comp@));
    }
    string_from_chars(&out)
}

/// Where the search database lives under a home.
pub open spec fn index_db_path_seq(home: Seq<char>) -> Seq<char> {
    home + "/.agentic/kofnote_search.sqlite"@
}

/// The search database file under a Central Home.
pub fn index_db_path(central_home: &str) -> (r: String)
    ensures
        r@ == index_db_path_seq(central_home@),
{
    let mut out = chars_vec(central_home);
    let tail = chars_vec("/.agentic/kofnote_search.sqlite");
    let ghost pre = out@;
    let mut i: usize = 0;
    while i < tail.len()
        invariant
            i <= tail.len(),
            out@ == pre + tail@.subrange(0, i as int),
        decreases tail.len() - i,
    {
        out.push(tail[i]);
        i = i + 1;
        proof {
            assert(out@ =~= pre + tail@.subrange(0, i as int));
        }
    }
    proof {
        assert(tail@.subrange(0, tail@.len() as int) =~= tail@);
    }
    string_from_chars(&out)
}

/// Whether a directory looks like a Central Home, given which of its three
/// signature entries exist on disk.
pub fn is_central_home(marker_exists: bool, records_exists: bool, logs_exists: bool) -> (r: bool)
    ensures
        r == (marker_exists || records_exists || logs_exists),
{
    marker_exists || records_exists || logs_exists
}

/// The record-type directory names, in their fixed order.
pub open spec fn record_dir_names() -> Seq<Seq<char>> {
    seq!["decisions"@, "worklogs"@, "ideas"@, "backlogs"@, "other"@]
}

pub fn is_record_dir_name(name: &Vec<char>) -> (r: bool)
    ensures
        r == record_dir_names().contains(name@),
{
    let d0 = chars_vec("decisions");
    let d1 = chars_vec("worklogs");
    let d2 = chars_vec("ideas");
    let d3 = chars_vec("backlogs");
    let d4 = chars_vec("other");
    let hit = chars_eq(name, &d0) || chars_eq(name, &d1) || chars_eq(name, &d2) || chars_eq(
        name,
        &d3,
    ) || chars_eq(name, &d4);
    proof {
        if hit {
            assert(record_dir_names().contains(name@));
        }
        if record_dir_names().contains(name@) {
            let i = choose|i: int| 0 <= i < 5 && record_dir_names()[i] == name@;
            assert(hit);
        }
    }
    hit
}

/// The Central Home detection policy, over a candidate path (already made
/// absolute, with a trailing filename already stripped by the caller) and the
/// home-signature probes of the candidate's ancestor chain:
/// `ancestor_is_home[0]` speaks of the candidate itself, `[1]` of its parent,
/// and so on.
pub open spec fn detect_home(p: Seq<char>, ancestor_is_home: Seq<bool>) -> Seq<char> {
    let name = last_component(p);
    let parent = parent_seq(p);
    let parent_name = last_component(parent);
    if record_dir_names().contains(name) && parent_name == "records"@ {
        parent_seq(parent)
    } else if name == "records"@ {
        parent
    } else if name == "logs"@ && parent_name == ".agentic"@ {
        parent_seq(parent)
    } else if name == ".agentic"@ {
        parent
    } else if first_home_depth(ancestor_is_home) < ancestor_is_home.len() {
        ancestor_at(p, first_home_depth(ancestor_is_home))
    } else {
        p
    }
}

/// Index of the first ancestor whose probe is true.
pub open spec fn first_home_depth(flags: Seq<bool>) -> int
    decreases flags.len(),
{
    if flags.len() == 0 {
        0
    } else if flags[0] {
        0
    } else {
        1 + first_home_depth(flags.drop_first())
    }
}

/// The `k`-th ancestor of a path: the path itself at 0, then parents.
pub open spec fn ancestor_at(p: Seq<char>, k: int) -> Seq<char>
    decreases k,
{
    if k <= 0 {
        p
    } else {
        parent_seq(ancestor_at(p, k - 1))
    }
}

fn nth_ancestor(p: &Vec<char>, k: usize) -> (r: Vec<char>)
    ensures
        r@ == ancestor_at(p@, k as int),
    decreases k,
{
    if k == 0 {
        copy_range(p, 0, p.len())
    } else {
        let up = nth_ancestor(p, k - 1);
        let (parent, _name) = split_parent(&up);
        parent
    }
}

/// Resolves the Central Home from a candidate directory path.
///
/// The caller (which alone can touch the disk) strips a trailing filename
/// first and probes each ancestor for the home signature (the
/// `CENTRAL_LOG_MARKER` file, a `records/` directory or `.agentic/logs/`);
/// the probe outcomes come in as `ancestor_is_home`.
pub fn detect_central_home_path(candidate: &str, ancestor_is_home: &Vec<bool>) -> (r: String)
    ensures
        r@ == detect_home(candidate@, ancestor_is_home@),
{
    let p = chars_vec(candidate);
    let (parent, name) = split_parent(&p);
    let (grand, parent_name) = split_parent(&parent);
    let records = chars_vec("records");
    let logs = chars_vec("logs");
    let agentic = chars_vec(".agentic");
    if is_record_dir_name(&name) && chars_eq(&parent_name, &records) {
        return string_from_chars(&grand);
    }
    if chars_eq(&name, &records) {
        return string_from_chars(&parent);
    }
    if chars_eq(&name, &logs) && chars_eq(&parent_name, &agentic) {
        return string_from_chars(&grand);
    }
    if chars_eq(&name, &agentic) {
        return string_from_chars(&parent);
    }
    let mut k: usize = 0;
    while k < ancestor_is_home.len() && !ancestor_is_home[k]
        invariant
            k <= ancestor_is_home.len(),
            forall|j: int| 0 <= j < k ==> !ancestor_is_home@[j],
        decreases ancestor_is_home.len() - k,
    {
        k = k + 1;
    }
    proof {
        lemma_first_home_depth(ancestor_is_home@, k as int);
    }
    if k < ancestor_is_home.len() {
        let a = nth_ancestor(&p, k);
        string_from_chars(&a)
    } else {
        string_from_chars(&p)
    }
}

proof fn lemma_first_home_depth(flags: Seq<bool>, k: int)
    requires
        0 <= k <= flags.len(),
        forall|j: int| 0 <= j < k ==> !flags[j],
        k < flags.len() ==> flags[k],
    ensures
        k < flags.len() ==> first_home_depth(flags) == k,
        k == flags.len() ==> first_home_depth(flags) >= flags.len(),
    decreases k,
{
    if flags.len() > 0 && !flags[0] {
        lemma_first_home_depth(flags.drop_first(), if k == 0 { 0 } else { k - 1 });
    }
}

/// A resolved Central Home and whether the input had to be corrected.
pub struct ResolvedHome {
    pub central_home: String,
    pub corrected: bool,
}

/// Resolves and validates a Central Home path. The caller absolutizes the
/// trimmed input, strips a trailing filename, probes the ancestors, and
/// afterwards creates the directory skeleton.
pub fn resolve_central_home(input_path: &str, candidate_abs: &str, ancestor_is_home: &Vec<bool>) -> (r: Result<
    ResolvedHome,
    String,
>)
    ensures
        crate::text::trimmed(input_path@).len() == 0 <==> r is Err,
        (r matches Err(e) ==> e@ == "Central Home path is required"@),
        (r matches Ok(h) ==> h.central_home@ == detect_home(candidate_abs@, ancestor_is_home@)
            && h.corrected == (h.central_home@ != candidate_abs@)),
{
    if crate::text::is_blank(input_path) {
        return Err(String::from_str("Central Home path is required"));
    }
    let resolved = detect_central_home_path(candidate_abs, ancestor_is_home);
    let rv = chars_vec(resolved.as_str());
    let cv = chars_vec(candidate_abs);
    let corrected = !chars_eq(&rv, &cv);
    Ok(ResolvedHome { central_home: resolved, corrected })
}

/// Resolves the Central Home for a command, rejecting a blank input.
pub fn normalized_home(input: &str, candidate_abs: &str, ancestor_is_home: &Vec<bool>) -> (r: Result<
    String,
    String,
>)
    ensures
        crate::text::trimmed(input@).len() == 0 <==> r is Err,
        (r matches Err(e) ==> e@ == "Central Home path is required"@),
        (r matches Ok(h) ==> h@ == detect_home(candidate_abs@, ancestor_is_home@)),
{
    if crate::text::is_blank(input) {
        return Err(String::from_str("Central Home path is required"));
    }
    Ok(detect_central_home_path(candidate_abs, ancestor_is_home))
}

/// The directory skeleton a Central Home must carry, relative to its root.
pub fn structure_dirs() -> (r: Vec<String>)
    ensures
        r@.len() == 10,
{
    let mut v: Vec<String> = Vec::new();
    v.push(String::from_str("records"));
    v.push(String::from_str("records/decisions"));
    v.push(String::from_str("records/worklogs"));
    v.push(String::from_str("records/ideas"));
    v.push(String::from_str("records/backlogs"));
    v.push(String::from_str("records/other"));
    v.push(String::from_str("records/debates"));
    v.push(String::from_str(".agentic/logs"));
    v.push(String::from_str("prompts/profiles"));
    v.push(String::from_str("prompts/templates"));
    v
}

} // verus!
