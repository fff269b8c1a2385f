//! Workspace health: the append-only log entries, the deterministic home
//! fingerprint, the diagnostics summary and the text a record contributes to
//! a notebook source.

use vstd::prelude::*;
use vstd::string::{StringExecFns, StrSliceExecFns};
use crate::records::Record;
use crate::sync::{fnv_field, hex_str};
use crate::util::{join_sep, join_with, strs, u64_to_string, dec_str};

verus! {

/// One structured event from the append-only log.
pub struct LogEntry {
    pub timestamp: String,
    pub event_id: String,
    pub task_intent: String,
    pub status: String,
    pub title: String,
    pub data_raw: String,
    pub json_path: Option<String>,
}

/// The text a record contributes as a notebook source: header, metadata (the
/// date line only when a date is set), then both bodies.
pub open spec fn source_text_lines(r: crate::records::RecordV) -> Seq<Seq<char>> {
    seq!["# "@ + r.title, Seq::<char>::empty(), "- Type: "@ + r.record_type, "- Created At: "@
        + r.created_at] + (match r.date {
        Some(d) => if d.len() > 0 {
            seq!["- Date: "@ + d]
        } else {
            Seq::<Seq<char>>::empty()
        },
        None => Seq::<Seq<char>>::empty(),
    }) + seq![
        "- Tags: "@ + join_sep(r.tags, ", "@),
        Seq::<char>::empty(),
        "## Final Body"@,
        r.final_body,
        Seq::<char>::empty(),
        "## Source Text"@,
        r.source_text,
    ]
}

/// Renders a record as a notebook source document.
pub fn render_record_source_text(record: &Record) -> (r: String)
    ensures
        r@ == join_sep(source_text_lines(record@), "\n"@),
{
    let mut lines: Vec<String> = Vec::new();
    let mut h = String::from_str("# ");
    h.append(record.title.as_str());
    push_line3(&mut lines, h);
    push_line3(&mut lines, String::new());
    let mut t = String::from_str("- Type: ");
    t.append(record.record_type.as_str());
    push_line3(&mut lines, t);
    let mut c = String::from_str("- Created At: ");
    c.append(record.created_at.as_str());
    push_line3(&mut lines, c);
    match &record.date {
        Some(d) => {
            if d.as_str().unicode_len() > 0 {
                let mut dl = String::from_str("- Date: ");
                dl.append(d.as_str());
                push_line3(&mut lines, dl);
            }
        },
        None => {},
    }
    let mut tg = String::from_str("- Tags: ");
    let tj = join_with(&record.tags, ", ");
    tg.append(tj.as_str());
    push_line3(&mut lines, tg);
    push_line3(&mut lines, String::new());
    push_line3(&mut lines, String::from_str("## Final Body"));
    push_line3(&mut lines, record.final_body.clone());
    push_line3(&mut lines, String::new());
    push_line3(&mut lines, String::from_str("## Source Text"));
    push_line3(&mut lines, record.source_text.clone());
    proof {
        assert(strs(lines@) =~= source_text_lines(record@));
    }
    join_with(&lines, "\n")
}

fn push_line3(out: &mut Vec<String>, line: String)
    ensures
        strs(final(out)@) == strs(old(out)@).push(line@),
{
    let ghost before = out@;
    out.push(line);
    proof {
        crate::util::lemma_strs_push(before, out@.last());
        assert(out@ =~= before.push(out@.last()));
    }
}

/// The fingerprint's fold over the summary fields of the first records and
/// logs.
pub open spec fn fp_records(h: u64, rs: Seq<Record>) -> u64
    decreases rs.len(),
{
    if rs.len() == 0 {
        h
    } else {
        fp_records(
            fnv_field(fnv_field(fnv_field(h, rs[0]@.title), rs[0]@.created_at), rs[0]@.record_type),
            rs.drop_first(),
        )
    }
}

pub open spec fn fp_logs(h: u64, ls: Seq<LogEntry>) -> u64
    decreases ls.len(),
{
    if ls.len() == 0 {
        h
    } else {
        fp_logs(fnv_field(fnv_field(h, ls[0].task_intent@), ls[0].timestamp@), ls.drop_first())
    }
}

pub open spec fn take_upto<A>(s: Seq<A>, n: int) -> Seq<A> {
    if s.len() <= n {
        s
    } else {
        s.subrange(0, n)
    }
}

/// The deterministic fingerprint of a workspace: home path, latest
/// timestamps, counts, and the summary fields of the first twelve records and
/// logs, folded through FNV-1a.
pub open spec fn fingerprint_of(
    home: Seq<char>,
    latest_record_at: Seq<char>,
    latest_log_at: Seq<char>,
    records: Seq<Record>,
    logs: Seq<LogEntry>,
) -> u64 {
    fp_logs(
        fp_records(
            fnv_field(
                fnv_field(
                    fnv_field(
                        fnv_field(fnv_field(crate::sync::fnv_basis(), home), latest_record_at),
                        latest_log_at,
                    ),
                    dec_str(records.len() as nat),
                ),
                dec_str(logs.len() as nat),
            ),
            take_upto(records, 12),
        ),
        take_upto(logs, 12),
    )
}

/// A workspace's digest and headline numbers.
pub struct HomeFingerprint {
    pub token: String,
    pub records_count: usize,
    pub logs_count: usize,
    pub latest_record_at: String,
    pub latest_log_at: String,
}

/// Computes the stable fingerprint of a loaded workspace. The latest
/// timestamps are the first entries' (the lists arrive newest first).
pub fn get_home_fingerprint(central_home: &str, records: &Vec<Record>, logs: &Vec<LogEntry>) -> (r:
    HomeFingerprint)
    ensures
        r.records_count == records@.len(),
        r.logs_count == logs@.len(),
        r.latest_record_at@ == (if records@.len() > 0 {
            records@[0]@.created_at
        } else {
            Seq::<char>::empty()
        }),
        r.latest_log_at@ == (if logs@.len() > 0 {
            logs@[0].timestamp@
        } else {
            Seq::<char>::empty()
        }),
        r.token@ == hex_str(
            fingerprint_of(
                central_home@,
                (if records@.len() > 0 {
                    records@[0]@.created_at
                } else {
                    Seq::<char>::empty()
                }),
                (if logs@.len() > 0 {
                    logs@[0].timestamp@
                } else {
                    Seq::<char>::empty()
                }),
                records@,
                logs@,
            ) as nat,
        ),
{
    let latest_record_at: String = if records.len() > 0 {
        records[0].created_at.clone()
    } else {
        String::new()
    };
    let latest_log_at: String = if logs.len() > 0 {
        logs[0].timestamp.clone()
    } else {
        String::new()
    };
    let mut h = crate::sync::fnv_field_pub(0xcbf29ce484222325u64, central_home);
    h = crate::sync::fnv_field_pub(h, latest_record_at.as_str());
    h = crate::sync::fnv_field_pub(h, latest_log_at.as_str());
    let rc = u64_to_string(records.len() as u64);
    h = crate::sync::fnv_field_pub(h, rc.as_str());
    let lc = u64_to_string(logs.len() as u64);
    h = crate::sync::fnv_field_pub(h, lc.as_str());
    let rn = if records.len() > 12 {
        12
    } else {
        records.len()
    };
    let ghost rtaken = take_upto(records@, 12);
    let mut i: usize = 0;
    proof {
        assert(rtaken.skip(0) =~= rtaken);
    }
    while i < rn
        invariant
            rn == (if records@.len() > 12 {
                12int
            } else {
                records@.len() as int
            }),
            i <= rn,
            rn <= records@.len(),
            rtaken == take_upto(records@, 12),
            fp_records(h, rtaken.skip(i as int)) == fp_records(
                fingerprint_head(central_home@, records@, logs@),
                rtaken,
            ),
        decreases rn - i,
    {
        proof {
            assert(rtaken.skip(i as int)[0] == records@[i as int]);
            assert(rtaken.skip(i as int).drop_first() =~= rtaken.skip(i + 1));
        }
        h = crate::sync::fnv_field_pub(h, records[i].title.as_str());
        h = crate::sync::fnv_field_pub(h, records[i].created_at.as_str());
        h = crate::sync::fnv_field_pub(h, records[i].record_type.as_str());
        i = i + 1;
    }
    proof {
        assert(rtaken.skip(i as int).len() == 0);
    }
    let ln = if logs.len() > 12 {
        12
    } else {
        logs.len()
    };
    let ghost ltaken = take_upto(logs@, 12);
    let mut j: usize = 0;
    proof {
        assert(ltaken.skip(0) =~= ltaken);
    }
    while j < ln
        invariant
            ln == (if logs@.len() > 12 {
                12int
            } else {
                logs@.len() as int
            }),
            j <= ln,
            ln <= logs@.len(),
            ltaken == take_upto(logs@, 12),
            fp_logs(h, ltaken.skip(j as int)) == fingerprint_of(
                central_home@,
                (if records@.len() > 0 {
                    records@[0]@.created_at
                } else {
                    Seq::<char>::empty()
                }),
                (if logs@.len() > 0 {
                    logs@[0].timestamp@
                } else {
                    Seq::<char>::empty()
                }),
                records@,
                logs@,
            ),
        decreases ln - j,
    {
        proof {
            assert(ltaken.skip(j as int)[0] == logs@[j as int]);
            assert(ltaken.skip(j as int).drop_first() =~= ltaken.skip(j + 1));
        }
        h = crate::sync::fnv_field_pub(h, logs[j].task_intent.as_str());
        h = crate::sync::fnv_field_pub(h, logs[j].timestamp.as_str());
        j = j + 1;
    }
    proof {
        assert(ltaken.skip(j as int).len() == 0);
    }
    let token = crate::sync::u64_hex_string(h);
    HomeFingerprint {
        token,
        records_count: records.len(),
        logs_count: logs.len(),
        latest_record_at,
        latest_log_at,
    }
}

/// The fold over the fixed header fields of the fingerprint.
pub open spec fn fingerprint_head(home: Seq<char>, records: Seq<Record>, logs: Seq<LogEntry>) -> u64 {
    fnv_field(
        fnv_field(
            fnv_field(
                fnv_field(
                    fnv_field(
                        crate::sync::fnv_basis(),
                        home,
                    ),
                    (if records.len() > 0 {
                        records[0]@.created_at
                    } else {
                        Seq::<char>::empty()
                    }),
                ),
                (if logs.len() > 0 {
                    logs[0].timestamp@
                } else {
                    Seq::<char>::empty()
                }),
            ),
            dec_str(records.len() as nat),
        ),
        dec_str(logs.len() as nat),
    )
}

/// Counts, index facts and credential flags of one workspace.
pub struct HealthDiagnostics {
    pub central_home: String,
    pub records_count: usize,
    pub logs_count: usize,
    pub index_path: String,
    pub index_exists: bool,
    pub indexed_records: usize,
    pub latest_record_at: String,
    pub latest_log_at: String,
    pub has_openai_api_key: bool,
    pub has_gemini_api_key: bool,
    pub has_clover_api_key: bool,
    pub profile_count: usize,
}

/// Assembles the health diagnostics from the loaded workspace and the
/// caller's keychain and index probes. A missing index reports zero rows.
pub fn get_health_diagnostics(
    central_home: &str,
    records: &Vec<Record>,
    logs: &Vec<LogEntry>,
    index_exists: bool,
    indexed_records: usize,
    has_openai_api_key: bool,
    has_gemini_api_key: bool,
    has_clover_api_key: bool,
    profile_count: usize,
) -> (r: HealthDiagnostics)
    ensures
        r.central_home@ == central_home@,
        r.records_count == records@.len(),
        r.logs_count == logs@.len(),
        r.index_path@ == crate::paths::index_db_path_seq(central_home@),
        r.index_exists == index_exists,
        r.indexed_records == (if index_exists {
            indexed_records as int
        } else {
            0int
        }),
        r.latest_record_at@ == (if records@.len() > 0 {
            records@[0]@.created_at
        } else {
            Seq::<char>::empty()
        }),
        r.latest_log_at@ == (if logs@.len() > 0 {
            logs@[0].timestamp@
        } else {
            Seq::<char>::empty()
        }),
        r.has_openai_api_key == has_openai_api_key,
        r.has_gemini_api_key == has_gemini_api_key,
        r.has_clover_api_key == has_clover_api_key,
        r.profile_count == profile_count,
{
    HealthDiagnostics {
        central_home: String::from_str(central_home),
        records_count: records.len(),
        logs_count: logs.len(),
        index_path: crate::paths::index_db_path(central_home),
        index_exists,
        indexed_records: if index_exists {
            indexed_records
        } else {
            0
        },
        latest_record_at: if records.len() > 0 {
            records[0].created_at.clone()
        } else {
            String::new()
        },
        latest_log_at: if logs.len() > 0 {
            logs[0].timestamp.clone()
        } else {
            String::new()
        },
        has_openai_api_key,
        has_gemini_api_key,
        has_clover_api_key,
        profile_count,
    }
}

} // verus!
