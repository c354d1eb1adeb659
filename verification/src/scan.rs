//! The scan orchestrator's verified core.
//!
//! One run enumerates files, then processes one terminal outcome per file:
//! skipped (unreadable, empty or oversized), denied (the pattern matcher
//! failed), or evaluated with the rule matches and import-analysis input.
//! The driver that walks directories, runs the matcher and parallelizes the
//! work feeds those outcomes into [`ScanState::step`]; every counter update,
//! finding construction and the final report assembly happen here.

use vstd::prelude::*;
use vstd::multiset::Multiset;

use crate::api::ApiImport;
use crate::report::FileFinding;
use crate::report::ScanReport;
use crate::report::YaraRuleMatch;
use crate::report::finding_score_spec;
use crate::report::score_finding;
use crate::score::analysis_ok;
use crate::score::score;
use crate::text::contains_seq;
use crate::text::lower_seq;

verus! {

/// Whether a file of `size` bytes is scanned under the limit `max_bytes`:
/// empty files and files over the limit are skipped, a file of exactly
/// `max_bytes` is scanned.
pub fn should_scan(size: u64, max_bytes: u64) -> (r: bool)
    ensures
        r == (1 <= size <= max_bytes),
{
    size != 0 && size <= max_bytes
}

/// Turns a limit in mebibytes into bytes, saturating instead of wrapping.
pub fn max_bytes_of(max_mb: u64) -> (r: u64)
    ensures
        r == if max_mb * 1048576 > u64::MAX {
            u64::MAX as int
        } else {
            max_mb * 1048576
        },
{
    if max_mb > u64::MAX / 1048576 {
        u64::MAX
    } else {
        max_mb * 1048576
    }
}

/// An enumeration failure counts as access-denied when its message names a
/// permission problem (ASCII case-insensitively).
pub open spec fn denied_message(s: Seq<char>) -> bool {
    contains_seq(lower_seq(s), "access is denied"@) || contains_seq(
        lower_seq(s),
        "permission denied"@,
    )
}

/// Classifies one enumeration failure by its message.
pub fn is_denied_message(msg: &str) -> (r: bool)
    ensures
        r == denied_message(msg@),
{
    let lower = crate::text::ascii_lower(msg);
    crate::text::contains_sub(lower.as_str(), "access is denied") || crate::text::contains_sub(
        lower.as_str(),
        "permission denied",
    )
}

/// How many of the failure messages name a permission problem.
pub open spec fn denied_count(msgs: Seq<String>) -> int
    decreases msgs.len(),
{
    if msgs.len() == 0 {
        0
    } else {
        denied_count(msgs.drop_last()) + if denied_message(msgs.last()@) {
            1int
        } else {
            0
        }
    }
}

proof fn lemma_denied_count_bounds(msgs: Seq<String>)
    ensures
        0 <= denied_count(msgs) <= msgs.len(),
    decreases msgs.len(),
{
    if msgs.len() > 0 {
        lemma_denied_count_bounds(msgs.drop_last());
    }
}

/// Splits the enumeration failures into (access-denied, other-skip) counts.
pub fn count_walk_failures(msgs: &[String]) -> (r: (u64, u64))
    requires
        msgs@.len() <= u64::MAX,
    ensures
        r.0 == denied_count(msgs@),
        r.1 == msgs@.len() - denied_count(msgs@),
{
    let n = msgs.len();
    let mut denied: u64 = 0;
    let mut i: usize = 0;
    while i < n
        invariant
            n == msgs@.len() <= u64::MAX,
            i <= n,
            denied == denied_count(msgs@.take(i as int)),
            0 <= denied <= i,
        decreases n - i,
    {
        proof {
            assert(msgs@.take(i + 1).drop_last() =~= msgs@.take(i as int));
            assert(msgs@.take(i + 1).last() == msgs@[i as int]);
        }
        if is_denied_message(msgs[i].as_str()) {
            denied = denied + 1;
        }
        i = i + 1;
    }
    proof {
        assert(msgs@.take(n as int) =~= msgs@);
        lemma_denied_count_bounds(msgs@);
    }
    ((denied), (n as u64) - denied)
}

/// The terminal outcome of one enumerated file, as the driver observed it.
pub enum FileEvent {
    /// The file was unreadable, empty, or over the size limit.
    Skipped,
    /// The pattern matcher failed on the file.
    Denied,
    /// The file was matched: its rule hits, the extracted imports when the
    /// file parsed as an executable, and the content hash when one was
    /// computed.
    Evaluated {
        path: String,
        size: u64,
        rule_hits: Vec<YaraRuleMatch>,
        imports: Option<Vec<ApiImport>>,
        content_hash: Option<String>,
    },
}

/// An event that produces a finding: an evaluated file with at least one
/// rule hit.
pub open spec fn is_match_event(ev: FileEvent) -> bool {
    match ev {
        FileEvent::Evaluated { rule_hits, .. } => rule_hits@.len() > 0,
        _ => false,
    }
}

/// The finding that a match event must produce.
pub open spec fn finding_matches_event(f: FileFinding, ev: FileEvent) -> bool {
    match ev {
        FileEvent::Evaluated { path, size, rule_hits, imports, content_hash } => {
            &&& f.path == path
            &&& f.size == size
            &&& f.sha256 == content_hash
            &&& f.yara == rule_hits
            &&& f.score == finding_score_spec(rule_hits@)
            &&& match imports {
                Some(v) => f.api is Some && analysis_ok(f.api->0, v@),
                None => f.api is None,
            }
        },
        _ => false,
    }
}

/// The running counters and collected findings of one scan.
pub struct ScanState {
    pub total: u64,
    pub scanned: u64,
    pub matched: u64,
    pub denied: u64,
    pub skipped: u64,
    pub findings: Vec<FileFinding>,
}

impl ScanState {
    /// Counter sanity: nothing outruns the scanned counter, which never
    /// passes the number of enumerated files.
    pub open spec fn wf(self) -> bool {
        &&& self.scanned <= self.total
        &&& self.matched <= self.scanned
        &&& self.denied <= self.scanned
        &&& self.skipped <= self.scanned
        &&& self.findings@.len() == self.matched
    }

    /// A fresh state for a run over `total` enumerated files.
    pub fn new(total: u64) -> (r: ScanState)
        ensures
            r.wf(),
            r.total == total,
            r.scanned == 0,
            r.matched == 0,
            r.denied == 0,
            r.skipped == 0,
            r.findings@.len() == 0,
    {
        ScanState { total, scanned: 0, matched: 0, denied: 0, skipped: 0, findings: Vec::new() }
    }

    /// Processes one file's outcome: every event advances the scanned
    /// counter by one; a match appends exactly one finding.
    pub fn step(&mut self, ev: FileEvent)
        requires
            old(self).wf(),
            old(self).scanned < old(self).total,
        ensures
            final(self).wf(),
            step_rel(*old(self), ev, *final(self)),
    {
        match ev {
            FileEvent::Skipped => {
                self.skipped = self.skipped + 1;
                self.scanned = self.scanned + 1;
            },
            FileEvent::Denied => {
                self.denied = self.denied + 1;
                self.scanned = self.scanned + 1;
            },
            FileEvent::Evaluated { path, size, rule_hits, imports, content_hash } => {
                self.scanned = self.scanned + 1;
                if rule_hits.len() > 0 {
                    self.matched = self.matched + 1;
                    let api = match imports {
                        Some(v) => Some(score(v.as_slice())),
                        None => None,
                    };
                    let fscore = score_finding(rule_hits.as_slice());
                    self.findings.push(
                        FileFinding {
                            path,
                            sha256: content_hash,
                            size,
                            yara: rule_hits,
                            score: fscore,
                            api,
                        },
                    );
                    proof {
                        assert(self.findings@.drop_last() =~= old(self).findings@);
                        assert(finding_matches_event(self.findings@.last(), ev));
                    }
                }
            },
        }
    }
}

/// The exact transition of one step.
pub open spec fn step_rel(pre: ScanState, ev: FileEvent, post: ScanState) -> bool {
    &&& pre.scanned < pre.total
    &&& post.total == pre.total
    &&& post.scanned == pre.scanned + 1
    &&& post.denied == pre.denied + if ev is Denied {
        1int
    } else {
        0
    }
    &&& post.skipped == pre.skipped + if ev is Skipped {
        1int
    } else {
        0
    }
    &&& post.matched == pre.matched + if is_match_event(ev) {
        1int
    } else {
        0
    }
    &&& if is_match_event(ev) {
        &&& post.findings@.len() == pre.findings@.len() + 1
        &&& post.findings@.drop_last() == pre.findings@
        &&& finding_matches_event(post.findings@.last(), ev)
    } else {
        post.findings@ == pre.findings@
    }
}

/// A chain of states produced by feeding `evs` into `step` one at a time:
/// `states[0]` is the state before the first event, `states[k + 1]` the
/// state after event `k`.
pub open spec fn valid_run(states: Seq<ScanState>, evs: Seq<FileEvent>) -> bool {
    &&& states.len() == evs.len() + 1
    &&& forall|k: int| 0 <= k < evs.len() ==> step_rel(#[trigger] states[k], evs[k], states[k + 1])
}

proof fn lemma_scanned_at(states: Seq<ScanState>, evs: Seq<FileEvent>, k: int)
    requires
        valid_run(states, evs),
        0 <= k < states.len(),
    ensures
        states[k].scanned == states[0].scanned + k,
    decreases k,
{
    if k > 0 {
        lemma_scanned_at(states, evs, k - 1);
    }
}

/// During one run the values handed to the progress callback as "scanned"
/// never decrease, and after the last of the enumerated files the counter
/// has grown by exactly their number.
pub proof fn lemma_progress_monotonic(states: Seq<ScanState>, evs: Seq<FileEvent>)
    requires
        valid_run(states, evs),
    ensures
        forall|i: int, j: int|
            0 <= i <= j < states.len() ==> states[i].scanned <= states[j].scanned,
        states.last().scanned == states.first().scanned + evs.len(),
{
    assert forall|i: int, j: int|
        0 <= i <= j < states.len() implies states[i].scanned <= states[j].scanned by {
        lemma_scanned_at(states, evs, i);
        lemma_scanned_at(states, evs, j);
    }
    lemma_scanned_at(states, evs, states.len() - 1);
}

/// The content of one finding as plain values: path, size, hash, score and
/// the matched rule names.
pub open spec fn finding_key(f: FileFinding) -> (
    Seq<char>,
    u64,
    Option<Seq<char>>,
    int,
    Seq<Seq<char>>,
) {
    (
        f.path@,
        f.size,
        match f.sha256 {
            Some(s) => Some(s@),
            None => None,
        },
        f.score as int,
        f.yara@.map_values(|m: YaraRuleMatch| m.rule@),
    )
}

/// The finding content that a match event determines.
pub open spec fn event_key(ev: FileEvent) -> (
    Seq<char>,
    u64,
    Option<Seq<char>>,
    int,
    Seq<Seq<char>>,
) {
    match ev {
        FileEvent::Evaluated { path, size, rule_hits, imports, content_hash } => (
            path@,
            size,
            match content_hash {
                Some(s) => Some(s@),
                None => None,
            },
            finding_score_spec(rule_hits@),
            rule_hits@.map_values(|m: YaraRuleMatch| m.rule@),
        ),
        _ => (Seq::empty(), 0, None, 0, Seq::empty()),
    }
}

/// The finding contents of a list of findings.
pub open spec fn finding_keys(fs: Seq<FileFinding>) -> Seq<
    (Seq<char>, u64, Option<Seq<char>>, int, Seq<Seq<char>>),
> {
    fs.map_values(|f: FileFinding| finding_key(f))
}

/// What one event contributes to the findings of a run.
pub open spec fn event_contrib(ev: FileEvent) -> Multiset<
    (Seq<char>, u64, Option<Seq<char>>, int, Seq<Seq<char>>),
> {
    if is_match_event(ev) {
        Multiset::singleton(event_key(ev))
    } else {
        Multiset::empty()
    }
}

/// The finding contents that a list of events determines, as a multiset:
/// the order of the events does not matter.
pub open spec fn match_keys(evs: Seq<FileEvent>) -> Multiset<
    (Seq<char>, u64, Option<Seq<char>>, int, Seq<Seq<char>>),
>
    decreases evs.len(),
{
    if evs.len() == 0 {
        Multiset::empty()
    } else {
        match_keys(evs.drop_last()).add(event_contrib(evs.last()))
    }
}

/// How many of the events are of the given kind.
pub open spec fn count_denied_events(evs: Seq<FileEvent>) -> int
    decreases evs.len(),
{
    if evs.len() == 0 {
        0
    } else {
        count_denied_events(evs.drop_last()) + if evs.last() is Denied {
            1int
        } else {
            0
        }
    }
}

pub open spec fn count_skipped_events(evs: Seq<FileEvent>) -> int
    decreases evs.len(),
{
    if evs.len() == 0 {
        0
    } else {
        count_skipped_events(evs.drop_last()) + if evs.last() is Skipped {
            1int
        } else {
            0
        }
    }
}

/// After a run, every counter and the collected finding contents are
/// determined by the events alone: scanned grew by their number, denied /
/// skipped / matched by the respective event counts, and the findings'
/// contents are the events' contributions.
pub proof fn lemma_run_outcome(states: Seq<ScanState>, evs: Seq<FileEvent>)
    requires
        valid_run(states, evs),
    ensures
        states.last().scanned == states.first().scanned + evs.len(),
        states.last().denied == states.first().denied + count_denied_events(evs),
        states.last().skipped == states.first().skipped + count_skipped_events(evs),
        states.last().matched == states.first().matched + match_keys(evs).len(),
        finding_keys(states.last().findings@).to_multiset() == finding_keys(
            states.first().findings@,
        ).to_multiset().add(match_keys(evs)),
    decreases evs.len(),
{
    broadcast use vstd::seq_lib::group_to_multiset_ensures;
    broadcast use vstd::multiset::group_multiset_axioms;

    if evs.len() == 0 {
        assert(states.last() == states.first());
        assert(finding_keys(states.first().findings@).to_multiset().add(Multiset::empty())
            =~= finding_keys(states.first().findings@).to_multiset());
    } else {
        let n = evs.len();
        let prev_states = states.drop_last();
        let prev_evs = evs.drop_last();
        assert(valid_run(prev_states, prev_evs)) by {
            assert(forall|k: int|
                0 <= k < prev_evs.len() ==> step_rel(
                    #[trigger] prev_states[k],
                    prev_evs[k],
                    prev_states[k + 1],
                )) by {
                assert(forall|k: int|
                    0 <= k < prev_evs.len() ==> prev_states[k] == states[k] && prev_evs[k]
                        == evs[k] && prev_states[k + 1] == states[k + 1]);
            }
        }
        lemma_run_outcome(prev_states, prev_evs);
        let pre = states[n - 1];
        let post = states[n as int];
        let ev = evs[n - 1];
        assert(step_rel(pre, ev, post));
        assert(prev_states.last() == pre);
        assert(prev_states.first() == states.first());
        let base = finding_keys(states.first().findings@).to_multiset();
        if is_match_event(ev) {
            let f = post.findings@.last();
            assert(post.findings@ =~= pre.findings@.push(f));
            assert(finding_keys(pre.findings@.push(f)) =~= finding_keys(pre.findings@).push(
                finding_key(f),
            ));
            assert(finding_key(f) == event_key(ev)) by {
                assert(finding_matches_event(f, ev));
                match ev {
                    FileEvent::Evaluated { path, size, rule_hits, imports, content_hash } => {
                        assert(f.yara@ == rule_hits@);
                        assert(f.yara@.map_values(|m: YaraRuleMatch| m.rule@)
                            =~= rule_hits@.map_values(|m: YaraRuleMatch| m.rule@));
                    },
                    _ => {},
                }
            }
            assert(finding_keys(post.findings@).to_multiset() =~= finding_keys(
                pre.findings@,
            ).to_multiset().insert(event_key(ev)));
            assert(base.add(match_keys(prev_evs)).insert(event_key(ev)) =~= base.add(
                match_keys(prev_evs).add(event_contrib(ev)),
            ));
        } else {
            assert(post.findings@ == pre.findings@);
            assert(base.add(match_keys(prev_evs)).add(Multiset::empty()) =~= base.add(
                match_keys(prev_evs),
            ));
        }
    }
}

proof fn lemma_match_keys_remove(evs: Seq<FileEvent>, i: int)
    requires
        0 <= i < evs.len(),
    ensures
        match_keys(evs) == match_keys(evs.remove(i)).add(event_contrib(evs[i])),
    decreases evs.len(),
{
    broadcast use vstd::multiset::group_multiset_axioms;

    let n = evs.len();
    if i == n - 1 {
        assert(evs.remove(i) =~= evs.drop_last());
    } else {
        let shorter = evs.drop_last();
        assert(evs.remove(i).drop_last() =~= shorter.remove(i));
        assert(evs.remove(i).last() == evs.last());
        lemma_match_keys_remove(shorter, i);
        assert(shorter[i] == evs[i]);
        assert(match_keys(evs.remove(i)).add(event_contrib(evs[i])) =~= match_keys(
            shorter.remove(i),
        ).add(event_contrib(evs[i])).add(event_contrib(evs.last())));
        assert(match_keys(evs) == match_keys(shorter).add(event_contrib(evs.last())));
        assert(match_keys(shorter).add(event_contrib(evs.last())) =~= match_keys(
            shorter.remove(i),
        ).add(event_contrib(evs[i])).add(event_contrib(evs.last())));
    }
}

/// The finding contents of a run depend only on which events occurred, not
/// on their order.
pub proof fn lemma_match_keys_permutation(evs1: Seq<FileEvent>, evs2: Seq<FileEvent>)
    requires
        evs1.to_multiset() == evs2.to_multiset(),
    ensures
        match_keys(evs1) == match_keys(evs2),
    decreases evs1.len(),
{
    broadcast use vstd::seq_lib::group_to_multiset_ensures;
    broadcast use vstd::multiset::group_multiset_axioms;

    if evs1.len() == 0 {
        assert(evs2.to_multiset().len() == 0);
        assert(evs2.len() == 0);
    } else {
        let x = evs1.last();
        assert(evs1.contains(x));
        assert(evs1.to_multiset().count(x) > 0);
        assert(evs2.to_multiset().count(x) > 0);
        assert(evs2.contains(x));
        let i = choose|i: int| 0 <= i < evs2.len() && evs2[i] == x;
        assert(evs2.remove(i).to_multiset() =~= evs2.to_multiset().remove(x));
        assert(evs1 =~= evs1.drop_last().push(x));
        assert(evs1.to_multiset() =~= evs1.drop_last().to_multiset().insert(x));
        assert(evs1.drop_last().to_multiset() =~= evs1.to_multiset().remove(x));
        lemma_match_keys_permutation(evs1.drop_last(), evs2.remove(i));
        lemma_match_keys_remove(evs2, i);
        assert(match_keys(evs1) == match_keys(evs1.drop_last()).add(event_contrib(x)));
    }
}

/// Two runs over the same collection of per-file outcomes, in whatever
/// order the workers delivered them, end with the same counters and the
/// same findings content (paths, sizes, hashes, scores and rule names).
pub proof fn lemma_scan_order_independent(
    states1: Seq<ScanState>,
    evs1: Seq<FileEvent>,
    states2: Seq<ScanState>,
    evs2: Seq<FileEvent>,
)
    requires
        valid_run(states1, evs1),
        valid_run(states2, evs2),
        states1.first().scanned == 0,
        states1.first().matched == 0,
        states1.first().denied == 0,
        states1.first().skipped == 0,
        states1.first().findings@.len() == 0,
        states2.first().scanned == 0,
        states2.first().matched == 0,
        states2.first().denied == 0,
        states2.first().skipped == 0,
        states2.first().findings@.len() == 0,
        evs1.to_multiset() == evs2.to_multiset(),
    ensures
        states1.last().scanned == states2.last().scanned,
        states1.last().matched == states2.last().matched,
        states1.last().denied == states2.last().denied,
        states1.last().skipped == states2.last().skipped,
        finding_keys(states1.last().findings@).to_multiset() == finding_keys(
            states2.last().findings@,
        ).to_multiset(),
{
    broadcast use vstd::seq_lib::group_to_multiset_ensures;
    broadcast use vstd::multiset::group_multiset_axioms;

    lemma_run_outcome(states1, evs1);
    lemma_run_outcome(states2, evs2);
    lemma_match_keys_permutation(evs1, evs2);
    lemma_count_denied_multiset(evs1);
    lemma_count_denied_multiset(evs2);
    lemma_count_skipped_multiset(evs1);
    lemma_count_skipped_multiset(evs2);
    assert(evs1.to_multiset().len() == evs2.to_multiset().len());
    assert(evs1.to_multiset().len() == evs1.len());
    assert(evs2.to_multiset().len() == evs2.len());
    assert(finding_keys(states1.first().findings@).to_multiset() =~= Multiset::empty());
    assert(finding_keys(states2.first().findings@).to_multiset() =~= Multiset::empty());
    assert(Multiset::empty().add(match_keys(evs1)) =~= match_keys(evs1));
    assert(Multiset::empty().add(match_keys(evs2)) =~= match_keys(evs2));
}

proof fn lemma_count_denied_multiset(evs: Seq<FileEvent>)
    ensures
        count_denied_events(evs) == evs.to_multiset().count(FileEvent::Denied),
    decreases evs.len(),
{
    broadcast use vstd::seq_lib::group_to_multiset_ensures;
    broadcast use vstd::multiset::group_multiset_axioms;

    if evs.len() == 0 {
    } else {
        lemma_count_denied_multiset(evs.drop_last());
        assert(evs =~= evs.drop_last().push(evs.last()));
        assert(evs.to_multiset() =~= evs.drop_last().to_multiset().insert(evs.last()));
        assert((evs.last() is Denied) <==> evs.last() == FileEvent::Denied);
    }
}

proof fn lemma_count_skipped_multiset(evs: Seq<FileEvent>)
    ensures
        count_skipped_events(evs) == evs.to_multiset().count(FileEvent::Skipped),
    decreases evs.len(),
{
    broadcast use vstd::seq_lib::group_to_multiset_ensures;
    broadcast use vstd::multiset::group_multiset_axioms;

    if evs.len() == 0 {
    } else {
        lemma_count_skipped_multiset(evs.drop_last());
        assert(evs =~= evs.drop_last().push(evs.last()));
        assert(evs.to_multiset() =~= evs.drop_last().to_multiset().insert(evs.last()));
        assert((evs.last() is Skipped) <==> evs.last() == FileEvent::Skipped);
    }
}

/// Stamps the timestamps and seals the report of one run.
pub fn finish(state: ScanState, started_utc: String, finished_utc: String) -> (r: ScanReport)
    ensures
        r.started_utc == started_utc,
        r.finished_utc == finished_utc,
        r.scanned_files == state.scanned,
        r.matched_files == state.matched,
        r.findings == state.findings,
{
    ScanReport {
        started_utc,
        finished_utc,
        scanned_files: state.scanned,
        matched_files: state.matched,
        findings: state.findings,
    }
}

} // verus!
