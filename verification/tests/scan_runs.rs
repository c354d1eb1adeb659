use revelation::report::{YaraRuleMatch, YaraStringMatch};
use revelation::scan::{
    count_walk_failures, finish, is_denied_message, max_bytes_of, should_scan, FileEvent, ScanState,
};

fn rule_match(rule: &str, hits: usize) -> YaraRuleMatch {
    let strings = (0..hits)
        .map(|i| YaraStringMatch {
            identifier: format!("$s{i}"),
            offset: i as u64,
            data_preview: "MZEVIL".to_string(),
        })
        .collect();
    YaraRuleMatch {
        rule: rule.to_string(),
        namespace: "default".to_string(),
        tags: vec![],
        meta: vec![],
        strings,
    }
}

fn matched_event(path: &str, size: u64, rules: Vec<YaraRuleMatch>) -> FileEvent {
    FileEvent::Evaluated {
        path: path.to_string(),
        size,
        rule_hits: rules,
        imports: None,
        content_hash: None,
    }
}

#[test]
fn single_matching_file_scenario() {
    // One 10-byte file whose content hits one rule with one string match and
    // is no executable: scanned 1, matched 1, no import analysis.
    let mut st = ScanState::new(1);
    st.step(matched_event("/tmp/evil.bin", 10, vec![rule_match("R1", 1)]));
    let report = finish(st, "start".to_string(), "end".to_string());
    assert_eq!(report.scanned_files, 1);
    assert_eq!(report.matched_files, 1);
    assert_eq!(report.findings.len(), 1);
    let f = &report.findings[0];
    assert_eq!(f.path, "/tmp/evil.bin");
    assert_eq!(f.size, 10);
    // 50 + 10 * 1 rule + 2 * 1 string hit.
    assert_eq!(f.score, 62);
    assert!(f.api.is_none());
    assert!(f.sha256.is_none());
    assert_eq!(f.yara[0].rule, "R1");
}

#[test]
fn size_boundary_scanned_at_limit_skipped_over_it() {
    let max = 1024;
    assert!(should_scan(1024, max));
    assert!(!should_scan(1025, max));
    assert!(!should_scan(0, max));
    assert!(should_scan(1, max));
}

#[test]
fn max_bytes_of_converts_and_saturates() {
    assert_eq!(max_bytes_of(50), 50 * 1024 * 1024);
    assert_eq!(max_bytes_of(0), 0);
    assert_eq!(max_bytes_of(u64::MAX), u64::MAX);
}

#[test]
fn progress_is_monotonic_and_converges() {
    let events = vec![
        FileEvent::Skipped,
        matched_event("/a", 5, vec![rule_match("R1", 0)]),
        FileEvent::Denied,
        matched_event("/b", 7, vec![]),
        FileEvent::Skipped,
    ];
    let total = events.len() as u64;
    let mut st = ScanState::new(total);
    let mut seen = Vec::new();
    for ev in events {
        st.step(ev);
        seen.push(st.scanned);
    }
    for w in seen.windows(2) {
        assert!(w[0] <= w[1]);
    }
    assert_eq!(*seen.last().unwrap(), total);
    assert_eq!(st.skipped, 2);
    assert_eq!(st.denied, 1);
    // An evaluated file without rule hits is scanned but not matched.
    assert_eq!(st.matched, 1);
}

#[test]
fn two_orders_same_findings() {
    let make_events = || {
        vec![
            matched_event("/x", 3, vec![rule_match("A", 1)]),
            FileEvent::Skipped,
            matched_event("/y", 9, vec![rule_match("B", 2)]),
            FileEvent::Denied,
        ]
    };
    let mut forward = make_events();
    let mut st1 = ScanState::new(forward.len() as u64);
    for ev in forward.drain(..) {
        st1.step(ev);
    }
    let mut backward = make_events();
    backward.reverse();
    let mut st2 = ScanState::new(backward.len() as u64);
    for ev in backward.drain(..) {
        st2.step(ev);
    }
    assert_eq!(st1.scanned, st2.scanned);
    assert_eq!(st1.matched, st2.matched);
    assert_eq!(st1.denied, st2.denied);
    assert_eq!(st1.skipped, st2.skipped);
    let key = |s: &ScanState| {
        let mut v: Vec<(String, u64, u32, Vec<String>)> = s
            .findings
            .iter()
            .map(|f| {
                (
                    f.path.clone(),
                    f.size,
                    f.score,
                    f.yara.iter().map(|m| m.rule.clone()).collect(),
                )
            })
            .collect();
        v.sort();
        v
    };
    assert_eq!(key(&st1), key(&st2));
}

#[test]
fn walk_failures_are_classified_by_message() {
    assert!(is_denied_message("Permission denied (os error 13)"));
    assert!(is_denied_message("ACCESS IS DENIED."));
    assert!(!is_denied_message("file name too long"));
    let msgs = vec![
        "Permission denied (os error 13)".to_string(),
        "file name too long".to_string(),
        "Access is denied.".to_string(),
    ];
    let (denied, skipped) = count_walk_failures(&msgs);
    assert_eq!(denied, 2);
    assert_eq!(skipped, 1);
}

#[test]
fn import_analysis_attached_when_imports_present() {
    let ev = FileEvent::Evaluated {
        path: "/pe".to_string(),
        size: 100,
        rule_hits: vec![rule_match("R", 0)],
        imports: Some(vec![revelation::api::ApiImport {
            dll: "ntdll.dll".to_string(),
            name: Some("VirtualAllocEx".to_string()),
            is_ordinal: false,
            ordinal: None,
        }]),
        content_hash: Some("abc".to_string()),
    };
    let mut st = ScanState::new(1);
    st.step(ev);
    let f = &st.findings[0];
    let api = f.api.as_ref().unwrap();
    assert!(api.is_pe);
    assert_eq!(api.total_score, 65);
    assert_eq!(api.severity, "Medium");
    assert_eq!(f.sha256.as_deref(), Some("abc"));
    // A single rule without string hits scores 50 + 10.
    assert_eq!(f.score, 60);
}
