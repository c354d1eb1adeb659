//! The flattened tabular form of a report: one row per (file, rule,
//! string-hit) triple, with a row per rule even when it reported no string
//! hits. Writing the rows out is the caller's business; their content is
//! decided and proved here.

use vstd::prelude::*;

use crate::format::dec_digits;
use crate::format::hex_digits;
use crate::format::u64_to_dec;
use crate::format::u64_to_hex_prefixed;
use crate::report::FileFinding;
use crate::report::ScanReport;
use crate::report::YaraRuleMatch;
use crate::report::YaraStringMatch;

verus! {

/// The short severity label used in exports.
pub open spec fn sev_short_label(score: u32) -> Seq<char> {
    if score >= 85 {
        "HIGH"@
    } else if score >= 60 {
        "MED"@
    } else {
        "LOW"@
    }
}

/// The short severity label used in exports.
pub fn sev_short(score: u32) -> (r: &'static str)
    ensures
        r@ == sev_short_label(score),
{
    if score >= 85 {
        "HIGH"
    } else if score >= 60 {
        "MED"
    } else {
        "LOW"
    }
}

/// Tags joined by `|`.
pub open spec fn join_pipe(tags: Seq<String>) -> Seq<char>
    decreases tags.len(),
{
    if tags.len() == 0 {
        Seq::empty()
    } else if tags.len() == 1 {
        tags[0]@
    } else {
        join_pipe(tags.drop_last()) + seq!['|'] + tags.last()@
    }
}

fn join_tags(tags: &Vec<String>) -> (r: String)
    ensures
        r@ == join_pipe(tags@),
{
    let n = tags.len();
    let mut out = String::new();
    let mut i: usize = 0;
    while i < n
        invariant
            n == tags@.len(),
            i <= n,
            out@ == join_pipe(tags@.take(i as int)),
        decreases n - i,
    {
        if i > 0 {
            out.push('|');
        }
        out.append(tags[i].as_str());
        proof {
            assert(tags@.take(i + 1).drop_last() =~= tags@.take(i as int));
            assert(tags@.take(i + 1).last() == tags@[i as int]);
            if i == 0 {
                assert(out@ =~= Seq::<char>::empty() + tags@[0]@);
                assert(join_pipe(tags@.take(1)) =~= tags@[0]@);
            } else {
                assert(out@ =~= join_pipe(tags@.take(i as int)) + seq!['|'] + tags@[i as int]@);
            }
        }
        i = i + 1;
    }
    proof {
        assert(tags@.take(n as int) =~= tags@);
    }
    out
}

/// The hash cell: the hex digest, or empty when none was computed.
pub open spec fn sha_cell(f: FileFinding) -> Seq<char> {
    match f.sha256 {
        Some(s) => s@,
        None => Seq::empty(),
    }
}

/// The row of one string hit.
pub open spec fn hit_row(f: FileFinding, m: YaraRuleMatch, s: YaraStringMatch) -> Seq<Seq<char>> {
    seq![
        f.path@,
        sev_short_label(f.score),
        dec_digits(f.score as nat),
        dec_digits(f.size as nat),
        sha_cell(f),
        m.rule@,
        m.namespace@,
        join_pipe(m.tags@),
        s.identifier@,
        seq!['0', 'x'] + hex_digits(s.offset as nat),
        s.data_preview@,
    ]
}

/// The row of a rule that reported no string hits.
pub open spec fn bare_row(f: FileFinding, m: YaraRuleMatch) -> Seq<Seq<char>> {
    seq![
        f.path@,
        sev_short_label(f.score),
        dec_digits(f.score as nat),
        dec_digits(f.size as nat),
        sha_cell(f),
        m.rule@,
        m.namespace@,
        join_pipe(m.tags@),
        Seq::<char>::empty(),
        Seq::<char>::empty(),
        Seq::<char>::empty(),
    ]
}

/// The rows of one matching rule: one per string hit, or one bare row.
pub open spec fn rows_for_match(f: FileFinding, m: YaraRuleMatch) -> Seq<Seq<Seq<char>>> {
    if m.strings@.len() == 0 {
        seq![bare_row(f, m)]
    } else {
        m.strings@.map_values(|s: YaraStringMatch| hit_row(f, m, s))
    }
}

/// The rows of one finding: its rules' rows in order.
pub open spec fn rows_for_finding(f: FileFinding, ms: Seq<YaraRuleMatch>) -> Seq<Seq<Seq<char>>>
    decreases ms.len(),
{
    if ms.len() == 0 {
        Seq::empty()
    } else {
        rows_for_finding(f, ms.drop_last()) + rows_for_match(f, ms.last())
    }
}

/// All data rows of a report, finding by finding.
pub open spec fn csv_rows_spec(findings: Seq<FileFinding>) -> Seq<Seq<Seq<char>>>
    decreases findings.len(),
{
    if findings.len() == 0 {
        Seq::empty()
    } else {
        csv_rows_spec(findings.drop_last()) + rows_for_finding(
            findings.last(),
            findings.last().yara@,
        )
    }
}

/// The column names of the flattened form.
pub fn csv_header() -> (r: Vec<String>)
    ensures
        r.deep_view() == seq![
            "path"@,
            "severity"@,
            "score"@,
            "size"@,
            "sha256"@,
            "rule"@,
            "namespace"@,
            "tags"@,
            "string_id"@,
            "string_offset"@,
            "string_preview"@,
        ],
{
    let mut r: Vec<String> = Vec::new();
    r.push(String::from_str("path"));
    r.push(String::from_str("severity"));
    r.push(String::from_str("score"));
    r.push(String::from_str("size"));
    r.push(String::from_str("sha256"));
    r.push(String::from_str("rule"));
    r.push(String::from_str("namespace"));
    r.push(String::from_str("tags"));
    r.push(String::from_str("string_id"));
    r.push(String::from_str("string_offset"));
    r.push(String::from_str("string_preview"));
    proof {
        assert(r.deep_view() =~= seq![
            "path"@,
            "severity"@,
            "score"@,
            "size"@,
            "sha256"@,
            "rule"@,
            "namespace"@,
            "tags"@,
            "string_id"@,
            "string_offset"@,
            "string_preview"@,
        ]);
    }
    r
}

proof fn lemma_string_vec_dv(v: Vec<String>)
    ensures
        v.deep_view().len() == v@.len(),
        forall|i: int| 0 <= i < v@.len() ==> v.deep_view()[i] == v@[i]@,
{
}

fn row_prefix(f: &FileFinding, m: &YaraRuleMatch) -> (r: Vec<String>)
    ensures
        r.deep_view() == seq![
            f.path@,
            sev_short_label(f.score),
            dec_digits(f.score as nat),
            dec_digits(f.size as nat),
            sha_cell(*f),
            m.rule@,
            m.namespace@,
            join_pipe(m.tags@),
        ],
{
    let mut r: Vec<String> = Vec::new();
    r.push(f.path.clone());
    r.push(String::from_str(sev_short(f.score)));
    r.push(u64_to_dec(f.score as u64));
    r.push(u64_to_dec(f.size));
    let sha = match &f.sha256 {
        Some(s) => s.clone(),
        None => String::new(),
    };
    r.push(sha);
    r.push(m.rule.clone());
    r.push(m.namespace.clone());
    r.push(join_tags(&m.tags));
    proof {
        assert(r.deep_view() =~= seq![
            f.path@,
            sev_short_label(f.score),
            dec_digits(f.score as nat),
            dec_digits(f.size as nat),
            sha_cell(*f),
            m.rule@,
            m.namespace@,
            join_pipe(m.tags@),
        ]);
    }
    r
}

fn push_match_rows(f: &FileFinding, m: &YaraRuleMatch, out: &mut Vec<Vec<String>>)
    ensures
        final(out).deep_view() == old(out).deep_view() + rows_for_match(*f, *m),
{
    let ghost base = out.deep_view();
    if m.strings.len() == 0 {
        let mut row = row_prefix(f, m);
        proof {
            lemma_string_vec_dv(row);
        }
        let ghost pview = row@;
        row.push(String::new());
        row.push(String::new());
        row.push(String::new());
        proof {
            lemma_string_vec_dv(row);
            assert(row@ =~= pview.push(row@[8]).push(row@[9]).push(row@[10]));
            assert(row.deep_view() =~= bare_row(*f, *m));
        }
        out.push(row);
        proof {
            assert(out.deep_view() =~= base.push(bare_row(*f, *m)));
            assert(base + rows_for_match(*f, *m) =~= base.push(bare_row(*f, *m)));
        }
    } else {
        let n = m.strings.len();
        let mut i: usize = 0;
        while i < n
            invariant
                n == m.strings@.len(),
                i <= n,
                out.deep_view() == base + m.strings@.take(i as int).map_values(
                    |s: YaraStringMatch| hit_row(*f, *m, s),
                ),
            decreases n - i,
        {
            let s = &m.strings[i];
            let mut row = row_prefix(f, m);
            proof {
                lemma_string_vec_dv(row);
            }
            let ghost pview = row@;
            row.push(s.identifier.clone());
            row.push(u64_to_hex_prefixed(s.offset));
            row.push(s.data_preview.clone());
            proof {
                lemma_string_vec_dv(row);
                assert(row@ =~= pview.push(row@[8]).push(row@[9]).push(row@[10]));
                assert(row.deep_view() =~= hit_row(*f, *m, m.strings@[i as int]));
            }
            let ghost before = out.deep_view();
            out.push(row);
            proof {
                assert(out.deep_view() =~= before.push(hit_row(*f, *m, m.strings@[i as int])));
                assert(m.strings@.take(i + 1).map_values(|s: YaraStringMatch| hit_row(*f, *m, s))
                    =~= m.strings@.take(i as int).map_values(
                    |s: YaraStringMatch| hit_row(*f, *m, s),
                ).push(hit_row(*f, *m, m.strings@[i as int])));
                assert(out.deep_view() =~= base + m.strings@.take(i + 1).map_values(
                    |s: YaraStringMatch| hit_row(*f, *m, s),
                ));
            }
            i = i + 1;
        }
        proof {
            assert(m.strings@.take(n as int) =~= m.strings@);
            assert(out.deep_view() =~= base + rows_for_match(*f, *m));
        }
    }
}

/// Flattens a report into its data rows, in report order: one row per
/// string hit, one bare row for a rule without hits.
pub fn csv_rows(report: &ScanReport) -> (r: Vec<Vec<String>>)
    ensures
        r.deep_view() == csv_rows_spec(report.findings@),
{
    let mut out: Vec<Vec<String>> = Vec::new();
    let nf = report.findings.len();
    let mut i: usize = 0;
    proof {
        assert(report.findings@.take(0) =~= Seq::<FileFinding>::empty());
        assert(out.deep_view() =~= csv_rows_spec(report.findings@.take(0)));
    }
    while i < nf
        invariant
            nf == report.findings@.len(),
            i <= nf,
            out.deep_view() == csv_rows_spec(report.findings@.take(i as int)),
        decreases nf - i,
    {
        let f = &report.findings[i];
        let nm = f.yara.len();
        let ghost fbase = out.deep_view();
        let mut j: usize = 0;
        while j < nm
            invariant
                nm == f.yara@.len(),
                j <= nm,
                out.deep_view() == fbase + rows_for_finding(*f, f.yara@.take(j as int)),
            decreases nm - j,
        {
            let m = &f.yara[j];
            push_match_rows(f, m, &mut out);
            proof {
                assert(f.yara@.take(j + 1).drop_last() =~= f.yara@.take(j as int));
                assert(f.yara@.take(j + 1).last() == f.yara@[j as int]);
                assert(out.deep_view() =~= fbase + rows_for_finding(*f, f.yara@.take(j + 1)));
            }
            j = j + 1;
        }
        proof {
            assert(f.yara@.take(nm as int) =~= f.yara@);
            assert(report.findings@.take(i + 1).drop_last() =~= report.findings@.take(i as int));
            assert(report.findings@.take(i + 1).last() == report.findings@[i as int]);
            assert(out.deep_view() =~= csv_rows_spec(report.findings@.take(i + 1)));
        }
        i = i + 1;
    }
    proof {
        assert(report.findings@.take(nf as int) =~= report.findings@);
    }
    out
}

} // verus!
