//! Character-level text primitives shared by the whole library.
//!
//! Strings are modelled as `Seq<char>`; the executable code works on
//! `Vec<char>` buffers obtained from `&str` and turned back into `String`.

use vstd::prelude::*;
use vstd::string::StrSliceExecFns;

verus! {

/// The Unicode `White_Space` code points, as `char::is_whitespace` documents them.
pub open spec fn is_wspace(c: char) -> bool {
    c == ' ' || c == '\t' || c == '\n' || c == '\r' || c == '\u{b}' || c == '\u{c}'
        || c == '\u{85}' || c == '\u{a0}' || c == '\u{1680}'
        || ('\u{2000}' <= c && c <= '\u{200a}')
        || c == '\u{2028}' || c == '\u{2029}' || c == '\u{202f}' || c == '\u{205f}'
        || c == '\u{3000}'
}

pub open spec fn is_ascii_upper(c: char) -> bool {
    'A' <= c && c <= 'Z'
}

pub open spec fn is_ascii_lower(c: char) -> bool {
    'a' <= c && c <= 'z'
}

pub open spec fn is_ascii_digit(c: char) -> bool {
    '0' <= c && c <= '9'
}

/// ASCII case folding of a single character.
pub open spec fn lower_char(c: char) -> char {
    if is_ascii_upper(c) {
        (((c as u32) + 32) as u8) as char
    } else {
        c
    }
}

pub open spec fn upper_char(c: char) -> char {
    if is_ascii_lower(c) {
        (((c as u32) - 32) as u8) as char
    } else {
        c
    }
}

pub open spec fn lower_seq(s: Seq<char>) -> Seq<char> {
    s.map_values(|c: char| lower_char(c))
}

pub open spec fn upper_seq(s: Seq<char>) -> Seq<char> {
    s.map_values(|c: char| upper_char(c))
}

/// Leading whitespace removed.
pub open spec fn ltrimmed(s: Seq<char>) -> Seq<char>
    decreases s.len(),
{
    if s.len() > 0 && is_wspace(s[0]) {
        ltrimmed(s.drop_first())
    } else {
        s
    }
}

/// Trailing whitespace removed.
pub open spec fn rtrimmed(s: Seq<char>) -> Seq<char>
    decreases s.len(),
{
    if s.len() > 0 && is_wspace(s.last()) {
        rtrimmed(s.drop_last())
    } else {
        s
    }
}

/// Leading and trailing whitespace removed.
pub open spec fn trimmed(s: Seq<char>) -> Seq<char> {
    rtrimmed(ltrimmed(s))
}

/// The needle occurs in the haystack starting at index `i`.
pub open spec fn matches_at(hay: Seq<char>, needle: Seq<char>, i: int) -> bool {
    0 <= i && i + needle.len() <= hay.len() && hay.subrange(i, i + needle.len()) == needle
}

/// The needle occurs somewhere in the haystack.
pub open spec fn contains_seq(hay: Seq<char>, needle: Seq<char>) -> bool {
    exists|i: int| matches_at(hay, needle, i)
}

pub open spec fn starts_with_seq(hay: Seq<char>, needle: Seq<char>) -> bool {
    needle.len() <= hay.len() && hay.subrange(0, needle.len() as int) == needle
}

/// Distinct characters have distinct code points.
pub proof fn lemma_char_inj(c1: char, c2: char)
    requires
        c1 as u32 == c2 as u32,
    ensures
        c1 == c2,
{
    vstd::utf8::char_u32_cast(c1, c1 as u32);
    vstd::utf8::char_u32_cast(c2, c2 as u32);
}

/// The characters of a string slice, as a vector.
pub fn chars_vec(s: &str) -> (r: Vec<char>)
    ensures
        r@ == s@,
{
    let n = s.unicode_len();
    let mut r: Vec<char> = Vec::new();
    let mut i: usize = 0;
    while i < n
        invariant
            n == s@.len(),
            i <= n,
            r@ == s@.subrange(0, i as int),
        decreases n - i,
    {
        r.push(s.get_char(i));
        i = i + 1;
        proof {
            assert(r@ =~= s@.subrange(0, i as int));
        }
    }
    proof {
        assert(r@ =~= s@);
    }
    r
}

/// Relies on `String: FromIterator<char>`: collecting characters yields the
/// string with exactly those characters in order.
#[verifier::external_body]
pub fn string_from_chars(v: &Vec<char>) -> (r: String)
    ensures
        r@ == v@,
{
    v.iter().collect()
}

/// Whether two character vectors hold the same characters.
pub fn chars_eq(a: &Vec<char>, b: &Vec<char>) -> (r: bool)
    ensures
        r == (a@ == b@),
{
    if a.len() != b.len() {
        proof {
            assert(a@ != b@);
        }
        return false;
    }
    let n = a.len();
    let mut i: usize = 0;
    while i < n
        invariant
            n == a.len() && n == b.len(),
            i <= n,
            a@.subrange(0, i as int) == b@.subrange(0, i as int),
        decreases n - i,
    {
        if a[i] != b[i] {
            proof {
                assert(a@[i as int] != b@[i as int]);
            }
            return false;
        }
        i = i + 1;
        proof {
            assert(a@.subrange(0, i as int) =~= b@.subrange(0, i as int));
        }
    }
    proof {
        assert(a@.subrange(0, n as int) =~= a@);
        assert(b@.subrange(0, n as int) =~= b@);
    }
    true
}

/// ASCII-lowercases every character.
pub fn lower_chars(v: &Vec<char>) -> (r: Vec<char>)
    ensures
        r@ == lower_seq(v@),
{
    let mut r: Vec<char> = Vec::new();
    let mut i: usize = 0;
    while i < v.len()
        invariant
            i <= v.len(),
            r@ == lower_seq(v@.subrange(0, i as int)),
        decreases v.len() - i,
    {
        let c = v[i];
        let code = c as u32;
        if 65 <= code && code <= 90 {
            r.push(((code + 32) as u8) as char);
        } else {
            r.push(c);
        }
        i = i + 1;
        proof {
            assert(r@ =~= lower_seq(v@.subrange(0, i as int)));
        }
    }
    proof {
        assert(v@.subrange(0, v.len() as int) =~= v@);
    }
    r
}

/// ASCII-uppercases every character.
pub fn upper_chars(v: &Vec<char>) -> (r: Vec<char>)
    ensures
        r@ == upper_seq(v@),
{
    let mut r: Vec<char> = Vec::new();
    let mut i: usize = 0;
    while i < v.len()
        invariant
            i <= v.len(),
            r@ == upper_seq(v@.subrange(0, i as int)),
        decreases v.len() - i,
    {
        let c = v[i];
        let code = c as u32;
        if 97 <= code && code <= 122 {
            r.push(((code - 32) as u8) as char);
        } else {
            r.push(c);
        }
        i = i + 1;
        proof {
            assert(r@ =~= upper_seq(v@.subrange(0, i as int)));
        }
    }
    proof {
        assert(v@.subrange(0, v.len() as int) =~= v@);
    }
    r
}

pub fn is_wspace_char(c: char) -> (r: bool)
    ensures
        r == is_wspace(c),
{
    let u = c as u32;
    u == 0x20 || u == 0x9 || u == 0xa || u == 0xd || u == 0xb || u == 0xc || u == 0x85
        || u == 0xa0 || u == 0x1680 || (0x2000 <= u && u <= 0x200a) || u == 0x2028
        || u == 0x2029 || u == 0x202f || u == 0x205f || u == 0x3000
}

proof fn lemma_ltrimmed_step(s: Seq<char>, i: int)
    requires
        0 <= i < s.len(),
        forall|j: int| 0 <= j < i ==> is_wspace(s[j]),
    ensures
        ltrimmed(s) == ltrimmed(s.subrange(i, s.len() as int)),
    decreases i,
{
    if i > 0 {
        lemma_ltrimmed_step(s, i - 1);
        assert(s.subrange(i - 1, s.len() as int).drop_first() =~= s.subrange(i, s.len() as int));
        assert(s.subrange(i - 1, s.len() as int)[0] == s[i - 1]);
    } else {
        assert(s.subrange(0, s.len() as int) =~= s);
    }
}

proof fn lemma_ltrimmed_all(s: Seq<char>)
    requires
        forall|j: int| 0 <= j < s.len() ==> is_wspace(s[j]),
    ensures
        ltrimmed(s) == Seq::<char>::empty(),
    decreases s.len(),
{
    if s.len() > 0 {
        lemma_ltrimmed_all(s.drop_first());
    } else {
        assert(s =~= Seq::<char>::empty());
    }
}

proof fn lemma_rtrimmed_step(s: Seq<char>, j: int)
    requires
        0 <= j <= s.len(),
        forall|k: int| j <= k < s.len() ==> is_wspace(s[k]),
    ensures
        rtrimmed(s) == rtrimmed(s.subrange(0, j)),
    decreases s.len() - j,
{
    if j < s.len() {
        lemma_rtrimmed_step(s, j + 1);
        assert(s.subrange(0, j + 1).drop_last() =~= s.subrange(0, j));
        assert(s.subrange(0, j + 1).last() == s[j]);
    } else {
        assert(s.subrange(0, s.len() as int) =~= s);
    }
}

pub proof fn lemma_ltrimmed_len(s: Seq<char>)
    ensures
        ltrimmed(s).len() <= s.len(),
    decreases s.len(),
{
    if s.len() > 0 && is_wspace(s[0]) {
        lemma_ltrimmed_len(s.drop_first());
    }
}

pub proof fn lemma_rtrimmed_len(s: Seq<char>)
    ensures
        rtrimmed(s).len() <= s.len(),
    decreases s.len(),
{
    if s.len() > 0 && is_wspace(s.last()) {
        lemma_rtrimmed_len(s.drop_last());
    }
}

/// A string is at least as long as its trimmed form.
pub proof fn lemma_trimmed_len(s: Seq<char>)
    ensures
        trimmed(s).len() <= s.len(),
{
    lemma_ltrimmed_len(s);
    lemma_rtrimmed_len(ltrimmed(s));
}

pub proof fn lemma_ltrimmed_first(s: Seq<char>)
    ensures
        ltrimmed(s).len() > 0 ==> !is_wspace(ltrimmed(s)[0]),
    decreases s.len(),
{
    if s.len() > 0 && is_wspace(s[0]) {
        lemma_ltrimmed_first(s.drop_first());
    }
}

pub proof fn lemma_rtrimmed_last(s: Seq<char>)
    ensures
        rtrimmed(s).len() > 0 ==> !is_wspace(rtrimmed(s).last()),
    decreases s.len(),
{
    if s.len() > 0 && is_wspace(s.last()) {
        lemma_rtrimmed_last(s.drop_last());
    }
}

pub proof fn lemma_rtrimmed_keeps_first(s: Seq<char>)
    requires
        s.len() > 0,
        !is_wspace(s[0]),
    ensures
        rtrimmed(s).len() > 0,
        rtrimmed(s)[0] == s[0],
    decreases s.len(),
{
    if is_wspace(s.last()) {
        assert(s.len() >= 2);
        assert(s.drop_last()[0] == s[0]);
        lemma_rtrimmed_keeps_first(s.drop_last());
    }
}

/// A string that starts with a non-blank character trims to something.
pub proof fn lemma_trimmed_nonblank(s: Seq<char>)
    requires
        s.len() > 0,
        !is_wspace(s[0]),
    ensures
        trimmed(s).len() > 0,
{
    assert(ltrimmed(s) == s);
    lemma_rtrimmed_keeps_first(s);
}

/// A string without surrounding whitespace is its own trimmed form.
pub proof fn lemma_trimmed_clean(s: Seq<char>)
    requires
        s.len() > 0 ==> !is_wspace(s[0]) && !is_wspace(s.last()),
    ensures
        trimmed(s) == s,
{
    if s.len() == 0 {
        assert(ltrimmed(s) == s);
        assert(rtrimmed(s) == s);
    } else {
        assert(ltrimmed(s) == s);
        assert(rtrimmed(s) == s);
    }
}

/// Trimming is idempotent.
pub proof fn lemma_trimmed_idem(s: Seq<char>)
    ensures
        trimmed(trimmed(s)) == trimmed(s),
{
    let t = trimmed(s);
    if t.len() == 0 {
        assert(ltrimmed(t) == t);
        assert(rtrimmed(t) == t);
    } else {
        lemma_ltrimmed_first(s);
        lemma_rtrimmed_last(ltrimmed(s));
        if ltrimmed(s).len() > 0 {
            lemma_rtrimmed_keeps_first(ltrimmed(s));
        }
        lemma_trimmed_clean(t);
    }
}

/// Case folding maps whitespace to itself and never creates it.
pub proof fn lemma_lower_char_ws(c: char)
    ensures
        is_wspace(lower_char(c)) == is_wspace(c),
{
    if is_ascii_upper(c) {
        let l = lower_char(c);
        assert(l as u32 == c as u32 + 32);
        vstd::utf8::char_u32_cast(l, l as u32);
        assert(97 <= l as u32 <= 122);
        assert(!is_wspace(l));
        assert(!is_wspace(c));
    }
}

/// The lowering of a trimmed string is itself trimmed.
pub proof fn lemma_trimmed_lower(s: Seq<char>)
    ensures
        trimmed(lower_seq(trimmed(s))) == lower_seq(trimmed(s)),
{
    let t = trimmed(s);
    let l = lower_seq(t);
    if l.len() == 0 {
        assert(ltrimmed(l) == l);
        assert(rtrimmed(l) == l);
    } else {
        lemma_ltrimmed_first(s);
        lemma_rtrimmed_last(ltrimmed(s));
        if ltrimmed(s).len() > 0 {
            lemma_rtrimmed_keeps_first(ltrimmed(s));
        }
        assert(l[0] == lower_char(t[0]));
        assert(l.last() == lower_char(t.last()));
        lemma_lower_char_ws(t[0]);
        lemma_lower_char_ws(t.last());
        lemma_trimmed_clean(l);
    }
}

/// Trims whitespace from both ends.
pub fn trim_chars(v: &Vec<char>) -> (r: Vec<char>)
    ensures
        r@ == trimmed(v@),
{
    let n = v.len();
    let mut start: usize = 0;
    while start < n && is_wspace_char(v[start])
        invariant
            n == v.len(),
            start <= n,
            forall|j: int| 0 <= j < start ==> is_wspace(v@[j]),
        decreases n - start,
    {
        start = start + 1;
    }
    if start == n {
        proof {
            lemma_ltrimmed_all(v@);
        }
        let r: Vec<char> = Vec::new();
        proof {
            assert(rtrimmed(Seq::<char>::empty()) =~= Seq::<char>::empty());
        }
        return r;
    }
    proof {
        lemma_ltrimmed_step(v@, start as int);
        assert(!is_wspace(v@[start as int]));
        assert(v@.subrange(start as int, n as int)[0] == v@[start as int]);
        assert(ltrimmed(v@) == v@.subrange(start as int, n as int));
    }
    let mut end: usize = n;
    while end > start && is_wspace_char(v[end - 1])
        invariant
            n == v.len(),
            start < n,
            start <= end <= n,
            forall|k: int| end <= k < n ==> is_wspace(v@[k]),
        decreases end,
    {
        end = end - 1;
    }
    proof {
        let lt = v@.subrange(start as int, n as int);
        lemma_rtrimmed_step(lt, end - start);
        assert(lt.subrange(0, end - start) =~= v@.subrange(start as int, end as int));
        if end > start {
            assert(lt.subrange(0, end - start).last() == v@[end - 1]);
            assert(rtrimmed(v@.subrange(start as int, end as int)) == v@.subrange(
                start as int,
                end as int,
            ));
        } else {
            assert(v@.subrange(start as int, end as int) =~= Seq::<char>::empty());
        }
    }
    let mut r: Vec<char> = Vec::new();
    let mut i: usize = start;
    while i < end
        invariant
            start <= i <= end <= v.len(),
            r@ == v@.subrange(start as int, i as int),
        decreases end - i,
    {
        r.push(v[i]);
        i = i + 1;
        proof {
            assert(r@ =~= v@.subrange(start as int, i as int));
        }
    }
    r
}

/// Trims a string slice, returning an owned string.
pub fn trim_str(s: &str) -> (r: String)
    ensures
        r@ == trimmed(s@),
{
    let v = chars_vec(s);
    let t = trim_chars(&v);
    string_from_chars(&t)
}

/// Whether the string is empty once trimmed.
pub fn is_blank(s: &str) -> (r: bool)
    ensures
        r == (trimmed(s@).len() == 0),
{
    let v = chars_vec(s);
    let t = trim_chars(&v);
    t.len() == 0
}

/// Whether `hay` starts with `needle`.
pub fn starts_with_chars(hay: &Vec<char>, needle: &Vec<char>) -> (r: bool)
    ensures
        r == starts_with_seq(hay@, needle@),
{
    if needle.len() > hay.len() {
        return false;
    }
    let n = needle.len();
    let mut i: usize = 0;
    while i < n
        invariant
            n == needle.len() <= hay.len(),
            i <= n,
            hay@.subrange(0, i as int) == needle@.subrange(0, i as int),
        decreases n - i,
    {
        if hay[i] != needle[i] {
            proof {
                assert(hay@.subrange(0, n as int)[i as int] == hay@[i as int]);
                assert(hay@.subrange(0, n as int) != needle@);
            }
            return false;
        }
        i = i + 1;
        proof {
            assert(hay@.subrange(0, i as int) =~= needle@.subrange(0, i as int));
        }
    }
    proof {
        assert(hay@.subrange(0, n as int) =~= needle@);
    }
    true
}

/// Whether the needle occurs at position `i` of the haystack.
pub fn matches_at_exec(hay: &Vec<char>, needle: &Vec<char>, i: usize) -> (r: bool)
    requires
        i <= hay.len(),
    ensures
        r == matches_at(hay@, needle@, i as int),
{
    if needle.len() > hay.len() - i {
        return false;
    }
    let n = needle.len();
    let mut j: usize = 0;
    while j < n
        invariant
            i + n <= hay.len(),
            n == needle.len(),
            j <= n,
            hay@.subrange(i as int, i + j) == needle@.subrange(0, j as int),
        decreases n - j,
    {
        if hay[i + j] != needle[j] {
            proof {
                assert(hay@.subrange(i as int, i + n as int)[j as int] == hay@[i + j]);
                assert(hay@.subrange(i as int, i + n as int) != needle@);
            }
            return false;
        }
        j = j + 1;
        proof {
            assert(hay@.subrange(i as int, i + j) =~= needle@.subrange(0, j as int));
        }
    }
    proof {
        assert(hay@.subrange(i as int, i + n as int) =~= needle@);
    }
    true
}

/// Substring search.
pub fn contains_chars(hay: &Vec<char>, needle: &Vec<char>) -> (r: bool)
    ensures
        r == contains_seq(hay@, needle@),
{
    if needle.len() == 0 {
        proof {
            assert(matches_at(hay@, needle@, 0)) by {
                assert(hay@.subrange(0, 0) =~= needle@);
            }
        }
        return true;
    }
    let mut i: usize = 0;
    while i < hay.len()
        invariant
            needle.len() > 0,
            i <= hay.len(),
            forall|k: int| 0 <= k < i ==> !matches_at(hay@, needle@, k),
        decreases hay.len() - i,
    {
        if matches_at_exec(hay, needle, i) {
            return true;
        }
        i = i + 1;
    }
    proof {
        assert(forall|k: int| k >= i ==> !matches_at(hay@, needle@, k));
    }
    false
}

/// Substring search on string slices.
pub fn contains_str(hay: &str, needle: &str) -> (r: bool)
    ensures
        r == contains_seq(hay@, needle@),
{
    let h = chars_vec(hay);
    let n = chars_vec(needle);
    contains_chars(&h, &n)
}

} // verus!
