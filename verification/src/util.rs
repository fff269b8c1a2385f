//! Small utilities shared across the library: separator splitting, line
//! splitting, ordering of RFC3339 strings, deduplication and decimal
//! rendering.

use vstd::prelude::*;
use crate::text::{
    chars_eq, chars_vec, contains_seq, is_wspace_char, lower_seq, string_from_chars, trim_chars,
    trimmed,
};

verus! {

/// Index of the first occurrence of `c` in `s`, or `s.len()` when absent.
pub open spec fn find_idx(s: Seq<char>, c: char) -> int
    decreases s.len(),
{
    if s.len() == 0 {
        0
    } else if s[0] == c {
        0
    } else {
        1 + find_idx(s.drop_first(), c)
    }
}

pub proof fn lemma_find_idx_char(s: Seq<char>, c: char, k: int)
    requires
        0 <= k <= s.len(),
        forall|j: int| 0 <= j < k ==> s[j] != c,
        k == s.len() || s[k] == c,
    ensures
        find_idx(s, c) == k,
    decreases k,
{
    if k > 0 {
        lemma_find_idx_char(s.drop_first(), c, k - 1);
    }
}

/// Scan for `c` in `v` starting at `from`.
pub fn find_char(v: &Vec<char>, from: usize, c: char) -> (r: usize)
    requires
        from <= v.len(),
    ensures
        from <= r <= v.len(),
        r < v.len() ==> v@[r as int] == c,
        forall|j: int| from <= j < r ==> v@[j] != c,
        find_idx(v@.skip(from as int), c) == r - from,
{
    let mut i: usize = from;
    while i < v.len() && v[i] != c
        invariant
            from <= i <= v.len(),
            forall|j: int| from <= j < i ==> v@[j] != c,
        decreases v.len() - i,
    {
        i = i + 1;
    }
    proof {
        let sk = v@.skip(from as int);
        assert(forall|j: int| 0 <= j < i - from ==> sk[j] != c);
        if i < v.len() {
            assert(sk[i - from] == v@[i as int]);
        }
        lemma_find_idx_char(sk, c, i - from);
    }
    i
}

/// The pieces of `s` split on the separator `c` (as `str::split` counts them:
/// an empty input yields one empty piece).
pub open spec fn split_on(s: Seq<char>, c: char) -> Seq<Seq<char>>
    decreases s.len(),
{
    let i = find_idx(s, c);
    if !(0 <= i < s.len()) {
        seq![s]
    } else {
        seq![s.subrange(0, i)] + split_on(s.subrange(i + 1, s.len() as int), c)
    }
}

/// Copy of `v[from..to]`.
pub fn copy_range(v: &Vec<char>, from: usize, to: usize) -> (r: Vec<char>)
    requires
        from <= to <= v.len(),
    ensures
        r@ == v@.subrange(from as int, to as int),
{
    let mut r: Vec<char> = Vec::new();
    let mut i: usize = from;
    while i < to
        invariant
            from <= i <= to <= v.len(),
            r@ == v@.subrange(from as int, i as int),
        decreases to - i,
    {
        r.push(v[i]);
        i = i + 1;
        proof {
            assert(r@ =~= v@.subrange(from as int, i as int));
        }
    }
    r
}

fn split_on_push(v: &Vec<char>, from: usize, c: char, out: &mut Vec<Vec<char>>)
    requires
        from <= v.len(),
    ensures
        final(out)@.map_values(|p: Vec<char>| p@) == old(out)@.map_values(|p: Vec<char>| p@)
            + split_on(v@.skip(from as int), c),
    decreases v.len() - from,
{
    let ghost pre = out@.map_values(|p: Vec<char>| p@);
    let i = find_char(v, from, c);
    let piece = copy_range(v, from, i);
    proof {
        assert(v@.skip(from as int).subrange(0, i - from) =~= v@.subrange(from as int, i as int));
    }
    out.push(piece);
    proof {
        assert(out@.map_values(|p: Vec<char>| p@) =~= pre.push(piece@));
    }
    if i < v.len() {
        let ghost mid = out@.map_values(|p: Vec<char>| p@);
        split_on_push(v, i + 1, c, out);
        proof {
            assert(v@.skip(from as int).subrange(
                i - from + 1,
                v@.skip(from as int).len() as int,
            ) =~= v@.skip(i + 1));
            assert(final(out)@.map_values(|p: Vec<char>| p@) =~= pre + split_on(
                v@.skip(from as int),
                c,
            ));
        }
    } else {
        proof {
            assert(split_on(v@.skip(from as int), c) =~= seq![v@.skip(from as int)]);
            assert(v@.skip(from as int) =~= v@.subrange(from as int, i as int));
            assert(final(out)@.map_values(|p: Vec<char>| p@) =~= pre + split_on(
                v@.skip(from as int),
                c,
            ));
        }
    }
}

/// Splits `v` on the separator `c`.
pub fn split_on_chars(v: &Vec<char>, c: char) -> (r: Vec<Vec<char>>)
    ensures
        r@.map_values(|p: Vec<char>| p@) == split_on(v@, c),
{
    let mut out: Vec<Vec<char>> = Vec::new();
    split_on_push(v, 0, c, &mut out);
    proof {
        assert(v@.skip(0) =~= v@);
        assert(Seq::<Vec<char>>::empty().map_values(|p: Vec<char>| p@) =~= Seq::<
            Seq<char>,
        >::empty());
        assert(out@.map_values(|p: Vec<char>| p@) =~= split_on(v@, c));
    }
    out
}

/// The comma-separated tags of a raw string: each piece trimmed, empties
/// dropped.
pub open spec fn tags_of(s: Seq<char>) -> Seq<Seq<char>> {
    split_on(s, ',').map_values(|p: Seq<char>| trimmed(p)).filter(|p: Seq<char>| p.len() > 0)
}

/// Splits a comma-joined tag string back into individual tags.
pub fn parse_tags(raw: &str) -> (r: Vec<String>)
    ensures
        r@.map_values(|t: String| t@) == tags_of(raw@),
{
    let v = chars_vec(raw);
    let pieces = split_on_chars(&v, ',');
    let ghost ps = pieces@.map_values(|p: Vec<char>| p@);
    let mut out: Vec<String> = Vec::new();
    let mut i: usize = 0;
    while i < pieces.len()
        invariant
            i <= pieces.len(),
            ps == pieces@.map_values(|p: Vec<char>| p@),
            ps.len() == pieces@.len(),
            out@.map_values(|t: String| t@) == ps.subrange(0, i as int).map_values(
                |p: Seq<char>| trimmed(p),
            ).filter(|p: Seq<char>| p.len() > 0),
        decreases pieces.len() - i,
    {
        let ghost prefix = ps.subrange(0, i as int).map_values(|p: Seq<char>| trimmed(p)).filter(
            |p: Seq<char>| p.len() > 0,
        );
        let t = trim_chars(&pieces[i]);
        if t.len() > 0 {
            out.push(string_from_chars(&t));
        }
        i = i + 1;
        proof {
            let cur = ps.subrange(0, i as int).map_values(|p: Seq<char>| trimmed(p));
            assert(cur.drop_last() =~= ps.subrange(0, i - 1).map_values(
                |p: Seq<char>| trimmed(p),
            ));
            assert(cur.last() == trimmed(ps[i - 1]));
            reveal_with_fuel(Seq::filter, 2);
            assert(cur =~= cur.drop_last().push(trimmed(ps[i - 1])));
            assert(out@.map_values(|t: String| t@) =~= cur.filter(|p: Seq<char>| p.len() > 0));
        }
    }
    proof {
        assert(ps.subrange(0, ps.len() as int) =~= ps);
    }
    out
}

/// Trims `value`; a blank result becomes `None`.
pub fn option_non_empty(value: String) -> (r: Option<String>)
    ensures
        trimmed(value@).len() == 0 ==> r is None,
        trimmed(value@).len() > 0 ==> (r matches Some(t) && t@ == trimmed(value@)),
{
    let v = chars_vec(value.as_str());
    let t = trim_chars(&v);
    if t.len() == 0 {
        None
    } else {
        Some(string_from_chars(&t))
    }
}

/// Lexicographic comparison of character sequences (the order `str::cmp`
/// induces on code points): -1 when `a < b`, 0 when equal, 1 when `a > b`.
pub open spec fn lex_cmp(a: Seq<char>, b: Seq<char>) -> int
    decreases a.len(),
{
    if a.len() == 0 && b.len() == 0 {
        0
    } else if a.len() == 0 {
        -1
    } else if b.len() == 0 {
        1
    } else if a[0] != b[0] {
        if (a[0] as u32) < (b[0] as u32) {
            -1int
        } else {
            1int
        }
    } else {
        lex_cmp(a.drop_first(), b.drop_first())
    }
}

/// Compares two character vectors lexicographically.
pub fn lex_cmp_chars(a: &Vec<char>, b: &Vec<char>) -> (r: i8)
    ensures
        r as int == lex_cmp(a@, b@),
{
    proof {
        assert(a@.skip(0) =~= a@);
        assert(b@.skip(0) =~= b@);
    }
    let mut i: usize = 0;
    while i < a.len() && i < b.len()
        invariant
            i <= a.len() && i <= b.len(),
            lex_cmp(a@, b@) == lex_cmp(a@.skip(i as int), b@.skip(i as int)),
        decreases a.len() - i,
    {
        proof {
            assert(a@.skip(i as int)[0] == a@[i as int]);
            assert(b@.skip(i as int)[0] == b@[i as int]);
        }
        if a[i] != b[i] {
            if (a[i] as u32) < (b[i] as u32) {
                return -1;
            } else {
                return 1;
            }
        }
        i = i + 1;
        proof {
            assert(a@.skip(i - 1).drop_first() =~= a@.skip(i as int));
            assert(b@.skip(i - 1).drop_first() =~= b@.skip(i as int));
        }
    }
    proof {
        assert(a@.skip(i as int).len() == a@.len() - i);
        assert(b@.skip(i as int).len() == b@.len() - i);
    }
    if a.len() == b.len() {
        0
    } else if a.len() < b.len() {
        -1
    } else {
        1
    }
}

/// Descending comparison of two RFC3339 timestamps, as the record and log
/// listings sort them: simply the reverse lexicographic string order.
pub fn compare_iso_desc(a: &str, b: &str) -> (r: i8)
    ensures
        r as int == lex_cmp(b@, a@),
{
    let av = chars_vec(a);
    let bv = chars_vec(b);
    lex_cmp_chars(&bv, &av)
}

/// Deduplication with trimming: each item is trimmed; blanks and repeats of
/// anything already kept (`seen`) are dropped.
pub open spec fn dedup_spec(items: Seq<Seq<char>>, seen: Seq<Seq<char>>) -> Seq<Seq<char>>
    decreases items.len(),
{
    if items.len() == 0 {
        Seq::empty()
    } else {
        let c = trimmed(items[0]);
        if c.len() == 0 || seen.contains(c) {
            dedup_spec(items.drop_first(), seen)
        } else {
            seq![c] + dedup_spec(items.drop_first(), seen.push(c))
        }
    }
}

fn vec_contains_string(out: &Vec<String>, t: &Vec<char>) -> (r: bool)
    ensures
        r == out@.map_values(|s: String| s@).contains(t@),
{
    let mut i: usize = 0;
    while i < out.len()
        invariant
            i <= out.len(),
            forall|j: int| 0 <= j < i ==> (#[trigger] out@[j])@ != t@,
        decreases out.len() - i,
    {
        let ov = chars_vec(out[i].as_str());
        if chars_eq(&ov, t) {
            proof {
                assert(out@.map_values(|s: String| s@)[i as int] == t@);
            }
            return true;
        }
        i = i + 1;
    }
    proof {
        assert(forall|j: int|
            0 <= j < out@.len() ==> out@.map_values(|s: String| s@)[j] == (#[trigger] out@[j])@);
    }
    false
}

fn dedup_push(items: &Vec<String>, i: usize, out: &mut Vec<String>)
    requires
        i <= items.len(),
    ensures
        final(out)@.map_values(|s: String| s@) == old(out)@.map_values(|s: String| s@)
            + dedup_spec(
            items@.map_values(|s: String| s@).skip(i as int),
            old(out)@.map_values(|s: String| s@),
        ),
    decreases items.len() - i,
{
    let ghost pre = out@.map_values(|s: String| s@);
    let ghost rest = items@.map_values(|s: String| s@).skip(i as int);
    if i == items.len() {
        proof {
            assert(pre + dedup_spec(rest, pre) =~= pre);
        }
        return ;
    }
    let v = chars_vec(items[i].as_str());
    let t = trim_chars(&v);
    proof {
        assert(rest[0] == items@.map_values(|s: String| s@)[i as int]);
        assert(rest.drop_first() =~= items@.map_values(|s: String| s@).skip(i + 1));
    }
    if t.len() == 0 || vec_contains_string(out, &t) {
        dedup_push(items, i + 1, out);
    } else {
        out.push(string_from_chars(&t));
        proof {
            assert(out@.map_values(|s: String| s@) =~= pre.push(t@));
        }
        dedup_push(items, i + 1, out);
        proof {
            assert(pre.push(t@) =~= pre + seq![t@]);
            assert(pre.push(t@) + dedup_spec(rest.drop_first(), pre.push(t@)) =~= pre + (seq![t@]
                + dedup_spec(rest.drop_first(), pre.push(t@))));
        }
    }
}

/// Trims every entry, then drops blanks and duplicates, keeping first
/// occurrences in order.
pub fn dedup_non_empty(items: Vec<String>) -> (r: Vec<String>)
    ensures
        r@.map_values(|s: String| s@) == dedup_spec(
            items@.map_values(|s: String| s@),
            Seq::empty(),
        ),
{
    let mut out: Vec<String> = Vec::new();
    dedup_push(&items, 0, &mut out);
    proof {
        assert(items@.map_values(|s: String| s@).skip(0) =~= items@.map_values(|s: String| s@));
        assert(Seq::<String>::empty().map_values(|s: String| s@) =~= Seq::<Seq<char>>::empty());
    }
    out
}

/// The lines of `s`, as `str::lines` yields them: split on `'\n'`, a trailing
/// `'\r'` removed from each line, and no final empty line after a trailing
/// newline.
pub open spec fn split_lines(s: Seq<char>) -> Seq<Seq<char>>
    decreases s.len(),
{
    if s.len() == 0 {
        Seq::empty()
    } else {
        let i = find_idx(s, '\n');
        if !(0 <= i < s.len()) {
            seq![strip_cr(s)]
        } else {
            seq![strip_cr(s.subrange(0, i))] + split_lines(s.subrange(i + 1, s.len() as int))
        }
    }
}

pub open spec fn strip_cr(s: Seq<char>) -> Seq<char> {
    if s.len() > 0 && s.last() == '\r' {
        s.drop_last()
    } else {
        s
    }
}

fn push_stripped(v: &Vec<char>, from: usize, to: usize, out: &mut Vec<Vec<char>>)
    requires
        from <= to <= v.len(),
    ensures
        final(out)@.map_values(|p: Vec<char>| p@) == old(out)@.map_values(|p: Vec<char>| p@).push(
            strip_cr(v@.subrange(from as int, to as int)),
        ),
{
    let ghost pre = out@.map_values(|p: Vec<char>| p@);
    let end = if to > from && v[to - 1] == '\r' {
        to - 1
    } else {
        to
    };
    let piece = copy_range(v, from, end);
    proof {
        let full = v@.subrange(from as int, to as int);
        if to > from && v@[to - 1] == '\r' {
            assert(full.last() == v@[to - 1]);
            assert(full.drop_last() =~= v@.subrange(from as int, to - 1));
        }
        assert(piece@ == strip_cr(full));
    }
    out.push(piece);
    proof {
        assert(out@.map_values(|p: Vec<char>| p@) =~= pre.push(piece@));
    }
}

fn split_lines_push(v: &Vec<char>, from: usize, out: &mut Vec<Vec<char>>)
    requires
        from <= v.len(),
    ensures
        final(out)@.map_values(|p: Vec<char>| p@) == old(out)@.map_values(|p: Vec<char>| p@)
            + split_lines(v@.skip(from as int)),
    decreases v.len() - from,
{
    let ghost pre = out@.map_values(|p: Vec<char>| p@);
    let ghost rest = v@.skip(from as int);
    if from == v.len() {
        proof {
            assert(pre + split_lines(rest) =~= pre);
        }
        return ;
    }
    let i = find_char(v, from, '\n');
    push_stripped(v, from, i, out);
    proof {
        assert(rest.subrange(0, i - from) =~= v@.subrange(from as int, i as int));
    }
    if i < v.len() {
        split_lines_push(v, i + 1, out);
        proof {
            assert(rest.subrange(i - from + 1, rest.len() as int) =~= v@.skip(i + 1));
            assert(final(out)@.map_values(|p: Vec<char>| p@) =~= pre + split_lines(rest));
        }
    } else {
        proof {
            assert(rest =~= v@.subrange(from as int, i as int));
            assert(pre.push(strip_cr(rest)) =~= pre + seq![strip_cr(rest)]);
            assert(final(out)@.map_values(|p: Vec<char>| p@) =~= pre + split_lines(rest));
        }
    }
}

/// Splits a character buffer into its lines.
pub fn split_lines_chars(v: &Vec<char>) -> (r: Vec<Vec<char>>)
    ensures
        r@.map_values(|p: Vec<char>| p@) == split_lines(v@),
{
    let mut out: Vec<Vec<char>> = Vec::new();
    split_lines_push(v, 0, &mut out);
    proof {
        assert(v@.skip(0) =~= v@);
        assert(Seq::<Vec<char>>::empty().map_values(|p: Vec<char>| p@) =~= Seq::<
            Seq<char>,
        >::empty());
        assert(out@.map_values(|p: Vec<char>| p@) =~= split_lines(v@));
    }
    out
}

/// Decimal digits of `n`.
pub open spec fn dec_str(n: nat) -> Seq<char>
    decreases n,
{
    if n < 10 {
        seq![((48 + n) as u8) as char]
    } else {
        dec_str(n / 10).push(((48 + n % 10) as u8) as char)
    }
}

/// Renders `n` in decimal.
pub fn u64_dec_chars(n: u64) -> (r: Vec<char>)
    ensures
        r@ == dec_str(n as nat),
    decreases n,
{
    if n < 10 {
        let mut r: Vec<char> = Vec::new();
        r.push(((48 + n) as u8) as char);
        proof {
            assert(r@ =~= dec_str(n as nat));
        }
        r
    } else {
        let mut r = u64_dec_chars(n / 10);
        r.push(((48 + n % 10) as u8) as char);
        r
    }
}

/// Renders `n` in decimal as a string.
pub fn u64_to_string(n: u64) -> (r: String)
    ensures
        r@ == dec_str(n as nat),
{
    let v = u64_dec_chars(n);
    string_from_chars(&v)
}

/// `n` in decimal, left-padded with zeros to at least `width` digits.
pub open spec fn zero_padded(n: nat, width: nat) -> Seq<char> {
    let d = dec_str(n);
    if d.len() >= width {
        d
    } else {
        Seq::new((width - d.len()) as nat, |k: int| '0') + d
    }
}

/// Renders `n` left-padded with zeros to `width` digits.
pub fn u64_zero_padded(n: u64, width: usize) -> (r: Vec<char>)
    ensures
        r@ == zero_padded(n as nat, width as nat),
{
    let d = u64_dec_chars(n);
    if d.len() >= width {
        return d;
    }
    let mut r: Vec<char> = Vec::new();
    let mut i: usize = 0;
    let pad = width - d.len();
    while i < pad
        invariant
            i <= pad,
            r@ =~= Seq::new(i as nat, |k: int| '0'),
        decreases pad - i,
    {
        r.push('0');
        i = i + 1;
        proof {
            assert(r@ =~= Seq::new(i as nat, |k: int| '0'));
        }
    }
    let mut j: usize = 0;
    while j < d.len()
        invariant
            j <= d.len(),
            r@ == Seq::new(pad as nat, |k: int| '0') + d@.subrange(0, j as int),
        decreases d.len() - j,
    {
        r.push(d[j]);
        j = j + 1;
        proof {
            assert(r@ =~= Seq::new(pad as nat, |k: int| '0') + d@.subrange(0, j as int));
        }
    }
    proof {
        assert(d@.subrange(0, d.len() as int) =~= d@);
        assert(r@ =~= zero_padded(n as nat, width as nat));
    }
    r
}

/// The views of a sequence of strings.
pub open spec fn strs(v: Seq<String>) -> Seq<Seq<char>> {
    v.map_values(|s: String| s@)
}

pub proof fn lemma_strs_push(s: Seq<String>, x: String)
    ensures
        strs(s.push(x)) == strs(s).push(x@),
{
    assert(strs(s.push(x)) =~= strs(s).push(x@));
}

/// The parts joined with the separator between them.
pub open spec fn join_sep(ls: Seq<Seq<char>>, sep: Seq<char>) -> Seq<char>
    decreases ls.len(),
{
    if ls.len() == 0 {
        Seq::empty()
    } else if ls.len() == 1 {
        ls[0]
    } else {
        ls[0] + sep + join_sep(ls.drop_first(), sep)
    }
}

pub proof fn lemma_join_push(ls: Seq<Seq<char>>, sep: Seq<char>, x: Seq<char>)
    ensures
        join_sep(ls.push(x), sep) == if ls.len() == 0 {
            x
        } else {
            join_sep(ls, sep) + sep + x
        },
    decreases ls.len(),
{
    if ls.len() == 0 {
        assert(ls.push(x).len() == 1);
        assert(ls.push(x)[0] == x);
    } else if ls.len() == 1 {
        assert(ls.push(x).drop_first() =~= seq![x]);
        assert(join_sep(seq![x], sep) == x);
        assert(ls.push(x)[0] == ls[0]);
        assert(join_sep(ls.push(x), sep) == ls[0] + sep + x);
    } else {
        lemma_join_push(ls.drop_first(), sep, x);
        assert(ls.push(x).drop_first() =~= ls.drop_first().push(x));
        assert(join_sep(ls.push(x), sep) == ls[0] + sep + join_sep(ls.drop_first().push(x), sep));
        assert(ls[0] + sep + (join_sep(ls.drop_first(), sep) + sep + x) =~= (ls[0] + sep + join_sep(
            ls.drop_first(),
            sep,
        )) + sep + x);
    }
}

/// Joins strings with a separator.
pub fn join_with(parts: &Vec<String>, sep: &str) -> (r: String)
    ensures
        r@ == join_sep(parts@.map_values(|s: String| s@), sep@),
{
    let ghost ps = parts@.map_values(|s: String| s@);
    let mut out = String::new();
    let mut i: usize = 0;
    while i < parts.len()
        invariant
            i <= parts.len(),
            ps == parts@.map_values(|s: String| s@),
            ps.len() == parts@.len(),
            out@ == join_sep(ps.subrange(0, i as int), sep@),
        decreases parts.len() - i,
    {
        if i > 0 {
            out.append(sep);
        }
        let ghost pre = ps.subrange(0, i as int);
        out.append(parts[i].as_str());
        i = i + 1;
        proof {
            lemma_join_push(pre, sep@, ps[i - 1]);
            assert(ps.subrange(0, i as int) =~= pre.push(ps[i - 1]));
        }
    }
    proof {
        assert(ps.subrange(0, ps.len() as int) =~= ps);
    }
    out
}

pub proof fn lemma_lex_cmp_range(a: Seq<char>, b: Seq<char>)
    ensures
        -1 <= lex_cmp(a, b) <= 1,
    decreases a.len(),
{
    if a.len() > 0 && b.len() > 0 && a[0] == b[0] {
        lemma_lex_cmp_range(a.drop_first(), b.drop_first());
    }
}

pub proof fn lemma_lex_cmp_antisym(a: Seq<char>, b: Seq<char>)
    ensures
        lex_cmp(a, b) == -lex_cmp(b, a),
    decreases a.len(),
{
    if a.len() > 0 && b.len() > 0 {
        if a[0] == b[0] {
            lemma_lex_cmp_antisym(a.drop_first(), b.drop_first());
        } else {
            if (a[0] as u32) == (b[0] as u32) {
                crate::text::lemma_char_inj(a[0], b[0]);
            }
        }
    }
}

pub proof fn lemma_lex_cmp_trans(a: Seq<char>, b: Seq<char>, c: Seq<char>)
    requires
        lex_cmp(a, b) <= 0,
        lex_cmp(b, c) <= 0,
    ensures
        lex_cmp(a, c) <= 0,
    decreases a.len(),
{
    if a.len() > 0 && b.len() > 0 && c.len() > 0 {
        if a[0] == b[0] && b[0] == c[0] {
            lemma_lex_cmp_trans(a.drop_first(), b.drop_first(), c.drop_first());
        }
    }
}

/// The first line of `s` that is non-blank after trimming, itself trimmed;
/// empty when there is none.
pub open spec fn first_nonblank_line(ls: Seq<Seq<char>>) -> Seq<char>
    decreases ls.len(),
{
    if ls.len() == 0 {
        Seq::empty()
    } else if trimmed(ls[0]).len() > 0 {
        trimmed(ls[0])
    } else {
        first_nonblank_line(ls.drop_first())
    }
}

/// A one-line summary: the first non-blank line, and when longer than
/// `max_chars` code points, its first `max_chars - 1` code points trimmed
/// again.
pub open spec fn summary_line(s: Seq<char>, max_chars: nat) -> Seq<char> {
    let line = first_nonblank_line(split_lines(s));
    if line.len() <= max_chars {
        line
    } else {
        trimmed(line.subrange(0, if max_chars == 0 { 0int } else { max_chars - 1 }))
    }
}

fn first_nonblank_of(lines: &Vec<Vec<char>>, i: usize) -> (r: Vec<char>)
    requires
        i <= lines.len(),
    ensures
        r@ == first_nonblank_line(lines@.map_values(|p: Vec<char>| p@).skip(i as int)),
    decreases lines.len() - i,
{
    let ghost ls = lines@.map_values(|p: Vec<char>| p@).skip(i as int);
    if i == lines.len() {
        let r: Vec<char> = Vec::new();
        return r;
    }
    proof {
        assert(ls[0] == lines@.map_values(|p: Vec<char>| p@)[i as int]);
        assert(ls.drop_first() =~= lines@.map_values(|p: Vec<char>| p@).skip(i + 1));
    }
    let t = trim_chars(&lines[i]);
    if t.len() > 0 {
        t
    } else {
        first_nonblank_of(lines, i + 1)
    }
}

/// Collapses a text to a single line of at most `max_chars` code points.
pub fn summarize_text_line(value: &str, max_chars: usize) -> (r: String)
    ensures
        r@ == summary_line(value@, max_chars as nat),
{
    let v = chars_vec(value);
    let lines = split_lines_chars(&v);
    let line = first_nonblank_of(&lines, 0);
    proof {
        assert(lines@.map_values(|p: Vec<char>| p@).skip(0) =~= lines@.map_values(
            |p: Vec<char>| p@,
        ));
    }
    if line.len() <= max_chars {
        string_from_chars(&line)
    } else {
        let keep = if max_chars == 0 {
            0
        } else {
            max_chars - 1
        };
        let cut = copy_range(&line, 0, keep);
        let t = trim_chars(&cut);
        string_from_chars(&t)
    }
}

} // verus!
