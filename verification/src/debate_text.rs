//! Parsing of a participant's free-form answer: the claim block, the risk
//! lines and the risk severity classes.

use vstd::prelude::*;
use vstd::string::{StringExecFns, StrSliceExecFns};
use crate::text::{
    chars_vec, contains_chars, contains_seq, lower_chars, lower_seq, starts_with_chars,
    starts_with_seq, string_from_chars, trim_chars, trimmed,
};
use crate::util::{
    copy_range, dedup_non_empty, dedup_spec, join_sep, join_with, split_lines, split_lines_chars,
    strs, summarize_text_line, summary_line,
};

verus! {

/// The bullet characters stripped from a line's front: hyphens, stars and
/// spaces.
pub open spec fn is_bullet(c: char) -> bool {
    c == '-' || c == '*' || c == ' '
}

/// Leading bullet characters removed.
pub open spec fn ltrim_bullet(s: Seq<char>) -> Seq<char>
    decreases s.len(),
{
    if s.len() > 0 && is_bullet(s[0]) {
        ltrim_bullet(s.drop_first())
    } else {
        s
    }
}

fn is_bullet_exec(c: char) -> (r: bool)
    ensures
        r == is_bullet(c),
{
    let u = c as u32;
    u == 45 || u == 42 || u == 32
}

proof fn lemma_ltrim_bullet_step(s: Seq<char>, i: int)
    requires
        0 <= i <= s.len(),
        forall|j: int| 0 <= j < i ==> is_bullet(s[j]),
    ensures
        ltrim_bullet(s) == ltrim_bullet(s.subrange(i, s.len() as int)),
    decreases i,
{
    if i > 0 {
        lemma_ltrim_bullet_step(s, i - 1);
        assert(s.subrange(i - 1, s.len() as int).drop_first() =~= s.subrange(i, s.len() as int));
        assert(s.subrange(i - 1, s.len() as int)[0] == s[i - 1]);
    } else {
        assert(s.subrange(0, s.len() as int) =~= s);
    }
}

/// Strips the leading run of bullet characters.
pub fn trim_bullet_prefix(value: &str) -> (r: String)
    ensures
        r@ == ltrim_bullet(value@),
{
    let v = chars_vec(value);
    let t = trim_bullet_chars(&v);
    string_from_chars(&t)
}

fn trim_bullet_chars(v: &Vec<char>) -> (r: Vec<char>)
    ensures
        r@ == ltrim_bullet(v@),
{
    let n = v.len();
    let mut start: usize = 0;
    while start < n && is_bullet_exec(v[start])
        invariant
            n == v.len(),
            start <= n,
            forall|j: int| 0 <= j < start ==> is_bullet(v@[j]),
        decreases n - start,
    {
        start = start + 1;
    }
    proof {
        lemma_ltrim_bullet_step(v@, start as int);
        if start < n {
            assert(v@.subrange(start as int, n as int)[0] == v@[start as int]);
        }
        assert(ltrim_bullet(v@) == v@.subrange(start as int, n as int));
    }
    copy_range(v, start, n)
}

/// A line with its claim label stripped: bullets first, then a leading
/// `claim:` or `claim` (case-insensitively); the rest trimmed.
pub open spec fn stripped_claim_label(s: Seq<char>) -> Seq<char> {
    let n = ltrim_bullet(s);
    let low = lower_seq(n);
    if starts_with_seq(low, "claim:"@) {
        trimmed(n.skip(6))
    } else if starts_with_seq(low, "claim"@) {
        trimmed(n.skip(5))
    } else {
        n
    }
}

pub fn strip_claim_label(value: &str) -> (r: String)
    ensures
        r@ == stripped_claim_label(value@),
{
    let v = chars_vec(value);
    let n = trim_bullet_chars(&v);
    let low = lower_chars(&n);
    if starts_with_chars(&low, &chars_vec("claim:")) {
        proof {
            reveal_strlit("claim:");
        }
        let tail = copy_range(&n, 6, n.len());
        let t = trim_chars(&tail);
        string_from_chars(&t)
    } else if starts_with_chars(&low, &chars_vec("claim")) {
        proof {
            reveal_strlit("claim");
        }
        let tail = copy_range(&n, 5, n.len());
        let t = trim_chars(&tail);
        string_from_chars(&t)
    } else {
        string_from_chars(&n)
    }
}

/// The first line that is non-empty after trimming and label stripping.
pub open spec fn first_stripped_line(ls: Seq<Seq<char>>) -> Seq<char>
    decreases ls.len(),
{
    if ls.len() == 0 {
        Seq::empty()
    } else {
        let x = stripped_claim_label(trimmed(ls[0]));
        if x.len() > 0 {
            x
        } else {
            first_stripped_line(ls.drop_first())
        }
    }
}

fn first_stripped_from(lines: &Vec<Vec<char>>, i: usize) -> (r: String)
    requires
        i <= lines.len(),
    ensures
        r@ == first_stripped_line(lines@.map_values(|p: Vec<char>| p@).skip(i as int)),
    decreases lines.len() - i,
{
    let ghost ls = lines@.map_values(|p: Vec<char>| p@).skip(i as int);
    if i == lines.len() {
        return String::new();
    }
    proof {
        assert(ls[0] == lines@.map_values(|p: Vec<char>| p@)[i as int]);
        assert(ls.drop_first() =~= lines@.map_values(|p: Vec<char>| p@).skip(i + 1));
    }
    let t = trim_chars(&lines[i]);
    let s = string_from_chars(&t);
    let x = strip_claim_label(s.as_str());
    if x.as_str().unicode_len() > 0 {
        x
    } else {
        first_stripped_from(lines, i + 1)
    }
}

/// Falls back to the first non-empty line, claim labels removed.
pub fn extract_first_non_empty_line(value: &str) -> (r: String)
    ensures
        r@ == first_stripped_line(split_lines(value@)),
{
    let v = chars_vec(value);
    let lines = split_lines_chars(&v);
    proof {
        assert(lines@.map_values(|p: Vec<char>| p@).skip(0) =~= lines@.map_values(
            |p: Vec<char>| p@,
        ));
    }
    first_stripped_from(&lines, 0)
}

/// A line that ends collecting the claim block: a rationale, reason, why or
/// risk section header.
pub open spec fn is_stop_label(low: Seq<char>) -> bool {
    starts_with_seq(low, "rationale:"@) || starts_with_seq(low, "rationale"@) || starts_with_seq(
        low,
        "reason:"@,
    ) || starts_with_seq(low, "reason"@) || starts_with_seq(low, "why:"@) || starts_with_seq(
        low,
        "why"@,
    ) || starts_with_seq(low, "risks:"@) || starts_with_seq(low, "risks"@) || starts_with_seq(
        low,
        "risk:"@,
    ) || starts_with_seq(low, "risk"@)
}

fn is_stop_label_exec(low: &Vec<char>) -> (r: bool)
    ensures
        r == is_stop_label(low@),
{
    starts_with_chars(low, &chars_vec("rationale:")) || starts_with_chars(
        low,
        &chars_vec("rationale"),
    ) || starts_with_chars(low, &chars_vec("reason:")) || starts_with_chars(
        low,
        &chars_vec("reason"),
    ) || starts_with_chars(low, &chars_vec("why:")) || starts_with_chars(low, &chars_vec("why"))
        || starts_with_chars(low, &chars_vec("risks:")) || starts_with_chars(
        low,
        &chars_vec("risks"),
    ) || starts_with_chars(low, &chars_vec("risk:")) || starts_with_chars(low, &chars_vec("risk"))
}

/// The pieces of the claim block: everything from the claim label to the next
/// section header or blank line, each line bullet-stripped.
pub open spec fn claim_parts(ls: Seq<Seq<char>>, collecting: bool) -> Seq<Seq<char>>
    decreases ls.len(),
{
    if ls.len() == 0 {
        Seq::empty()
    } else {
        let line = ls[0];
        if line.len() == 0 {
            if collecting {
                Seq::empty()
            } else {
                claim_parts(ls.drop_first(), false)
            }
        } else {
            let n = ltrim_bullet(line);
            let low = lower_seq(n);
            if !collecting {
                if starts_with_seq(low, "claim:"@) {
                    let tail = trimmed(n.skip(6));
                    (if tail.len() > 0 {
                        seq![tail]
                    } else {
                        Seq::empty()
                    }) + claim_parts(ls.drop_first(), true)
                } else if starts_with_seq(low, "claim"@) {
                    let tail = trimmed(n.skip(5));
                    (if tail.len() > 0 {
                        seq![tail]
                    } else {
                        Seq::empty()
                    }) + claim_parts(ls.drop_first(), true)
                } else {
                    claim_parts(ls.drop_first(), false)
                }
            } else {
                if is_stop_label(low) {
                    Seq::empty()
                } else {
                    seq![n] + claim_parts(ls.drop_first(), true)
                }
            }
        }
    }
}

/// The claim a text carries: the claim block joined with single spaces, when
/// one is found.
pub open spec fn claim_of(s: Seq<char>) -> Option<Seq<char>> {
    let ls = split_lines(s).map_values(|l: Seq<char>| trimmed(l));
    let c = trimmed(join_sep(claim_parts(ls, false), " "@));
    if c.len() == 0 {
        None
    } else {
        Some(c)
    }
}

fn claim_collect(lines: &Vec<Vec<char>>, i: usize, collecting: bool, out: &mut Vec<String>)
    requires
        i <= lines.len(),
    ensures
        strs(final(out)@) == strs(old(out)@) + claim_parts(
            lines@.map_values(|p: Vec<char>| p@).skip(i as int),
            collecting,
        ),
    decreases lines.len() - i,
{
    let ghost pre = strs(out@);
    let ghost ls = lines@.map_values(|p: Vec<char>| p@).skip(i as int);
    if i == lines.len() {
        proof {
            assert(pre + claim_parts(ls, collecting) =~= pre);
        }
        return ;
    }
    proof {
        assert(ls[0] == lines@.map_values(|p: Vec<char>| p@)[i as int]);
        assert(ls.drop_first() =~= lines@.map_values(|p: Vec<char>| p@).skip(i + 1));
    }
    let line = &lines[i];
    if line.len() == 0 {
        if collecting {
            proof {
                assert(pre + claim_parts(ls, collecting) =~= pre);
            }
            return ;
        }
        claim_collect(lines, i + 1, false, out);
        return ;
    }
    let n = trim_bullet_chars(line);
    let low = lower_chars(&n);
    if !collecting {
        if starts_with_chars(&low, &chars_vec("claim:")) {
            proof {
                reveal_strlit("claim:");
            }
            let tail = copy_range(&n, 6, n.len());
            let t = trim_chars(&tail);
            if t.len() > 0 {
                out.push(string_from_chars(&t));
                proof {
                    assert(strs(out@) =~= pre.push(trimmed(n@.skip(6))));
                }
            }
            let ghost mid = strs(out@);
            claim_collect(lines, i + 1, true, out);
            proof {
                assert(pre + claim_parts(ls, false) =~= mid + claim_parts(
                    ls.drop_first(),
                    true,
                ));
            }
        } else if starts_with_chars(&low, &chars_vec("claim")) {
            proof {
                reveal_strlit("claim");
            }
            let tail = copy_range(&n, 5, n.len());
            let t = trim_chars(&tail);
            if t.len() > 0 {
                out.push(string_from_chars(&t));
                proof {
                    assert(strs(out@) =~= pre.push(trimmed(n@.skip(5))));
                }
            }
            let ghost mid = strs(out@);
            claim_collect(lines, i + 1, true, out);
            proof {
                assert(pre + claim_parts(ls, false) =~= mid + claim_parts(
                    ls.drop_first(),
                    true,
                ));
            }
        } else {
            claim_collect(lines, i + 1, false, out);
        }
    } else {
        if is_stop_label_exec(&low) {
            proof {
                assert(pre + claim_parts(ls, collecting) =~= pre);
            }
            return ;
        }
        out.push(string_from_chars(&n));
        let ghost mid = strs(out@);
        proof {
            assert(mid =~= pre.push(n@));
        }
        claim_collect(lines, i + 1, true, out);
        proof {
            assert(pre + claim_parts(ls, true) =~= mid + claim_parts(ls.drop_first(), true));
        }
    }
}

/// Extracts the claim block of a turn's text.
pub fn extract_claim_text(value: &str) -> (r: Option<String>)
    ensures
        (match (r, claim_of(value@)) {
            (Some(a), Some(b)) => a@ == b,
            (None, None) => true,
            _ => false,
        }),
{
    let v = chars_vec(value);
    let raw_lines = split_lines_chars(&v);
    let mut lines: Vec<Vec<char>> = Vec::new();
    let mut i: usize = 0;
    while i < raw_lines.len()
        invariant
            i <= raw_lines.len(),
            lines@.map_values(|p: Vec<char>| p@) == raw_lines@.map_values(
                |p: Vec<char>| p@,
            ).subrange(0, i as int).map_values(|l: Seq<char>| trimmed(l)),
        decreases raw_lines.len() - i,
    {
        let ghost pre = lines@.map_values(|p: Vec<char>| p@);
        lines.push(trim_chars(&raw_lines[i]));
        i = i + 1;
        proof {
            let rv = raw_lines@.map_values(|p: Vec<char>| p@);
            assert(lines@.map_values(|p: Vec<char>| p@) =~= pre.push(trimmed(rv[i - 1])));
            assert(rv.subrange(0, i as int) =~= rv.subrange(0, i - 1).push(rv[i - 1]));
            assert(rv.subrange(0, i - 1).push(rv[i - 1]).map_values(|l: Seq<char>| trimmed(l))
                =~= rv.subrange(0, i - 1).map_values(|l: Seq<char>| trimmed(l)).push(
                trimmed(rv[i - 1]),
            ));
        }
    }
    proof {
        assert(raw_lines@.map_values(|p: Vec<char>| p@).subrange(
            0,
            raw_lines@.len() as int,
        ) =~= raw_lines@.map_values(|p: Vec<char>| p@));
    }
    let mut parts: Vec<String> = Vec::new();
    claim_collect(&lines, 0, false, &mut parts);
    proof {
        assert(lines@.map_values(|p: Vec<char>| p@).skip(0) =~= lines@.map_values(
            |p: Vec<char>| p@,
        ));
        assert(strs(Seq::<String>::empty()) =~= Seq::<Seq<char>>::empty());
    }
    let joined = join_with(&parts, " ");
    let c = crate::text::trim_str(joined.as_str());
    if c.as_str().unicode_len() == 0 {
        None
    } else {
        Some(c)
    }
}

/// Whether a lowered line speaks of a risk.
pub open spec fn has_risk_token(low: Seq<char>) -> bool {
    contains_seq(low, "risk"@) || contains_seq(low, "blocker"@) || contains_seq(low, "issue"@)
        || contains_seq(low, "failure"@)
}

/// The raw risk lines of a text: the non-blank lines that speak of a risk,
/// bullets stripped and trimmed.
pub open spec fn risk_base(ls: Seq<Seq<char>>) -> Seq<Seq<char>>
    decreases ls.len(),
{
    if ls.len() == 0 {
        Seq::empty()
    } else {
        let t = trimmed(ls[0]);
        if t.len() > 0 && has_risk_token(lower_seq(t)) {
            seq![trimmed(ltrim_bullet(t))] + risk_base(ls.drop_first())
        } else {
            risk_base(ls.drop_first())
        }
    }
}

/// The risks of a turn: its risk lines deduplicated, or one synthesized from
/// the text's summary when it names none and the text is not blank.
pub open spec fn risks_of(s: Seq<char>) -> Seq<Seq<char>> {
    let base = risk_base(split_lines(s));
    let based = if base.len() == 0 && summary_line(s, 130).len() > 0 {
        seq!["Potential risk: "@ + summary_line(s, 130)]
    } else {
        base
    };
    dedup_spec(based, Seq::empty())
}

fn risk_collect(lines: &Vec<Vec<char>>, i: usize, out: &mut Vec<String>)
    requires
        i <= lines.len(),
    ensures
        strs(final(out)@) == strs(old(out)@) + risk_base(
            lines@.map_values(|p: Vec<char>| p@).skip(i as int),
        ),
    decreases lines.len() - i,
{
    let ghost pre = strs(out@);
    let ghost ls = lines@.map_values(|p: Vec<char>| p@).skip(i as int);
    if i == lines.len() {
        proof {
            assert(pre + risk_base(ls) =~= pre);
        }
        return ;
    }
    proof {
        assert(ls[0] == lines@.map_values(|p: Vec<char>| p@)[i as int]);
        assert(ls.drop_first() =~= lines@.map_values(|p: Vec<char>| p@).skip(i + 1));
    }
    let t = trim_chars(&lines[i]);
    if t.len() > 0 {
        let low = lower_chars(&t);
        let hit = contains_chars(&low, &chars_vec("risk")) || contains_chars(
            &low,
            &chars_vec("blocker"),
        ) || contains_chars(&low, &chars_vec("issue")) || contains_chars(
            &low,
            &chars_vec("failure"),
        );
        if hit {
            let b = trim_bullet_chars(&t);
            let bt = trim_chars(&b);
            out.push(string_from_chars(&bt));
            proof {
                assert(strs(out@) =~= pre.push(trimmed(ltrim_bullet(trimmed(ls[0])))));
            }
            let ghost mid = strs(out@);
            risk_collect(lines, i + 1, out);
            proof {
                assert(pre + risk_base(ls) =~= mid + risk_base(ls.drop_first()));
            }
            return ;
        }
    }
    risk_collect(lines, i + 1, out);
}

/// Collects the risk lines of a turn's text.
pub fn extract_risk_lines(value: &str) -> (r: Vec<String>)
    ensures
        strs(r@) == risks_of(value@),
{
    let v = chars_vec(value);
    let lines = split_lines_chars(&v);
    let mut base: Vec<String> = Vec::new();
    risk_collect(&lines, 0, &mut base);
    proof {
        assert(lines@.map_values(|p: Vec<char>| p@).skip(0) =~= lines@.map_values(
            |p: Vec<char>| p@,
        ));
        assert(strs(Seq::<String>::empty()) =~= Seq::<Seq<char>>::empty());
    }
    if base.len() == 0 {
        let s = summarize_text_line(value, 130);
        if s.as_str().unicode_len() > 0 {
            let mut line = String::from_str("Potential risk: ");
            line.append(s.as_str());
            proof {
                reveal_strlit("Potential risk: ");
                assert(line@ =~= "Potential risk: "@ + summary_line(value@, 130));
            }
            base.push(line);
            proof {
                assert(strs(base@) =~= seq!["Potential risk: "@ + summary_line(value@, 130)]);
            }
        }
    }
    dedup_non_empty(base)
}

/// The severity class a risk line earns from its keywords.
pub open spec fn severity_of(s: Seq<char>) -> Seq<char> {
    let low = lower_seq(s);
    if contains_seq(low, "security"@) || contains_seq(low, "data loss"@) || contains_seq(
        low,
        "outage"@,
    ) || contains_seq(low, "blocking"@) || contains_seq(low, "critical"@) {
        "high"@
    } else if contains_seq(low, "latency"@) || contains_seq(low, "cost"@) || contains_seq(
        low,
        "quality"@,
    ) || contains_seq(low, "stability"@) {
        "medium"@
    } else {
        "low"@
    }
}

/// Classifies a risk line as high, medium or low severity.
pub fn classify_risk_severity(risk: &str) -> (r: &'static str)
    ensures
        r@ == severity_of(risk@),
{
    let v = chars_vec(risk);
    let low = lower_chars(&v);
    if contains_chars(&low, &chars_vec("security")) || contains_chars(&low, &chars_vec("data loss"))
        || contains_chars(&low, &chars_vec("outage")) || contains_chars(
        &low,
        &chars_vec("blocking"),
    ) || contains_chars(&low, &chars_vec("critical")) {
        "high"
    } else if contains_chars(&low, &chars_vec("latency")) || contains_chars(
        &low,
        &chars_vec("cost"),
    ) || contains_chars(&low, &chars_vec("quality")) || contains_chars(
        &low,
        &chars_vec("stability"),
    ) {
        "medium"
    } else {
        "low"
    }
}

} // verus!
