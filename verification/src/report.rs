//! Report data model: rule matches, per-file findings and the final scan
//! report, plus the signature-based finding score.

use vstd::prelude::*;

verus! {

/// One string hit of a matching rule: its identifier, byte offset and a
/// printable preview of the matched data.
#[derive(Debug, Clone)]
pub struct YaraStringMatch {
    pub identifier: String,
    pub offset: u64,
    pub data_preview: String,
}

/// One matching rule with its namespace, tags, metadata and string hits.
#[derive(Debug, Clone)]
pub struct YaraRuleMatch {
    pub rule: String,
    pub namespace: String,
    pub tags: Vec<String>,
    pub meta: Vec<(String, String)>,
    pub strings: Vec<YaraStringMatch>,
}

/// One reported file: kept only when at least one rule matched.
#[derive(Debug, Clone)]
pub struct FileFinding {
    pub path: String,
    pub sha256: Option<String>,
    pub size: u64,
    pub yara: Vec<YaraRuleMatch>,
    pub score: u32,
    pub api: Option<crate::api::ApiAnalysisResult>,
}

/// The aggregate of one scan run.
#[derive(Debug, Clone)]
pub struct ScanReport {
    pub started_utc: String,
    pub finished_utc: String,
    pub scanned_files: u64,
    pub matched_files: u64,
    pub findings: Vec<FileFinding>,
}

/// How a report is rendered.
#[derive(Debug, Clone, Copy)]
pub enum OutputFormat {
    Json,
    Console,
}

/// Sum of the string hits over a list of rule matches.
pub open spec fn total_string_hits(ms: Seq<YaraRuleMatch>) -> int
    decreases ms.len(),
{
    if ms.len() == 0 {
        0
    } else {
        total_string_hits(ms.drop_last()) + ms.last().strings.len()
    }
}

/// The signature-based score of one file: 0 without matches, otherwise
/// `min(100, 50 + 10 * rules + 2 * string hits)`.
pub open spec fn finding_score_spec(ms: Seq<YaraRuleMatch>) -> int {
    if ms.len() == 0 {
        0
    } else {
        crate::score::cap100(50 + 10 * ms.len() + 2 * total_string_hits(ms))
    }
}

/// Scores a file's rule matches. Zero without matches; with any match the
/// result lies between 50 and 100 and follows the exact formula above.
pub fn score_finding(yara_matches: &[YaraRuleMatch]) -> (r: u32)
    ensures
        r == finding_score_spec(yara_matches@),
        yara_matches@.len() == 0 ==> r == 0,
        yara_matches@.len() > 0 ==> 50 <= r <= 100,
{
    let n = yara_matches.len();
    if n == 0 {
        return 0;
    }
    if n >= 5 {
        proof {
            lemma_total_string_hits_nonneg(yara_matches@);
        }
        return 100;
    }
    let mut h: u32 = 0;
    let mut i: usize = 0;
    while i < n
        invariant
            n == yara_matches@.len(),
            i <= n,
            h == if total_string_hits(yara_matches@.take(i as int)) > 25 {
                25int
            } else {
                total_string_hits(yara_matches@.take(i as int))
            },
        decreases n - i,
    {
        proof {
            assert(yara_matches@.take(i + 1).drop_last() =~= yara_matches@.take(i as int));
            assert(yara_matches@.take(i + 1).last() == yara_matches@[i as int]);
            lemma_total_string_hits_nonneg(yara_matches@.take(i as int));
        }
        let s_len = yara_matches[i].strings.len();
        if s_len >= 25 {
            h = 25;
        } else {
            let t = h + (s_len as u32);
            h = if t > 25 {
                25
            } else {
                t
            };
        }
        i = i + 1;
    }
    proof {
        assert(yara_matches@.take(n as int) =~= yara_matches@);
        lemma_total_string_hits_nonneg(yara_matches@);
    }
    let v = 50 + 10 * (n as u32) + 2 * h;
    if v > 100 {
        100
    } else {
        v
    }
}

proof fn lemma_total_string_hits_nonneg(ms: Seq<YaraRuleMatch>)
    ensures
        total_string_hits(ms) >= 0,
    decreases ms.len(),
{
    if ms.len() > 0 {
        lemma_total_string_hits_nonneg(ms.drop_last());
    }
}

} // verus!
