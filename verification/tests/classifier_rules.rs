use revelation::api::{ApiCategory, ApiImport};
use revelation::classifier::classify_imports;
use revelation::report::score_finding;
use revelation::report::{YaraRuleMatch, YaraStringMatch};

fn imp(dll: &str, name: &str) -> ApiImport {
    ApiImport { dll: dll.to_string(), name: Some(name.to_string()), is_ordinal: false, ordinal: None }
}

fn classify_one_of(dll: &str, name: &str) -> (ApiCategory, bool, Vec<String>) {
    let out = classify_imports(&[imp(dll, name)]);
    let c = &out[0];
    (c.category, c.suspicious, c.reasons.clone())
}

#[test]
fn injection_takes_precedence_over_process_rule() {
    // CreateRemoteThread in kernel32.dll must be ProcessInjection, not the
    // generic kernel32 process rule.
    let (cat, sus, reasons) = classify_one_of("kernel32.dll", "CreateRemoteThread");
    assert_eq!(cat, ApiCategory::ProcessInjection);
    assert!(sus);
    assert_eq!(reasons, vec!["Common injection primitive".to_string()]);
}

#[test]
fn ordinal_import_is_flagged_first() {
    let out = classify_imports(&[ApiImport {
        dll: "kernel32.dll".to_string(),
        name: None,
        is_ordinal: true,
        ordinal: Some(42),
    }]);
    assert_eq!(out[0].category, ApiCategory::Other);
    assert!(out[0].suspicious);
    assert_eq!(out[0].reasons, vec!["Import by ordinal".to_string()]);
}

#[test]
fn registry_rule_needs_registry_library() {
    let (cat, sus, reasons) = classify_one_of("ADVAPI32.DLL", "RegSetValueExW");
    assert_eq!(cat, ApiCategory::Registry);
    assert!(sus);
    assert_eq!(reasons, vec!["Registry modification".to_string()]);
    // The same symbol outside advapi32 falls through to no rule.
    let (cat, sus, _) = classify_one_of("other.dll", "RegSetValueExW");
    assert_eq!(cat, ApiCategory::Other);
    assert!(!sus);
}

#[test]
fn process_rule_fires_under_kernel32() {
    let (cat, sus, reasons) = classify_one_of("kernel32.dll", "WinExec");
    assert_eq!(cat, ApiCategory::Process);
    assert!(sus);
    assert_eq!(reasons, vec!["Process execution".to_string()]);
}

#[test]
fn networking_by_symbol_or_library() {
    let (cat, _, _) = classify_one_of("urlmon.dll", "URLDownloadToFileA");
    assert_eq!(cat, ApiCategory::Networking);
    // Any symbol under a networking library is networking.
    let (cat, sus, _) = classify_one_of("ws2_32.dll", "closesocket");
    assert_eq!(cat, ApiCategory::Networking);
    assert!(sus);
}

#[test]
fn networking_shadows_crypto_when_both_match() {
    // The symbol holds both "send" and "bcrypt": networking is tried first.
    let (cat, _, _) = classify_one_of("x.dll", "BCryptSendHello");
    assert_eq!(cat, ApiCategory::Networking);
}

#[test]
fn crypto_and_antidebug_rules() {
    let (cat, _, reasons) = classify_one_of("advapi32x.dll", "CryptEncrypt");
    assert_eq!(cat, ApiCategory::Crypto);
    assert_eq!(reasons, vec!["Crypto API usage".to_string()]);
    let (cat, _, reasons) = classify_one_of("kernel32.dll", "IsDebuggerPresent");
    assert_eq!(cat, ApiCategory::AntiDebug);
    assert_eq!(reasons, vec!["Anti-debug technique".to_string()]);
}

#[test]
fn matching_is_case_insensitive_substring() {
    let (cat, sus, _) = classify_one_of("NTDLL.DLL", "ZwQUEUEUSERAPCSpecial");
    assert_eq!(cat, ApiCategory::ProcessInjection);
    assert!(sus);
}

#[test]
fn harmless_import_is_not_suspicious() {
    let (cat, sus, reasons) = classify_one_of("user32.dll", "MessageBoxW");
    assert_eq!(cat, ApiCategory::Other);
    assert!(!sus);
    assert!(reasons.is_empty());
}

fn rmatch(rule: &str, hits: usize) -> YaraRuleMatch {
    YaraRuleMatch {
        rule: rule.to_string(),
        namespace: "ns".to_string(),
        tags: vec![],
        meta: vec![],
        strings: (0..hits)
            .map(|i| YaraStringMatch {
                identifier: format!("$a{i}"),
                offset: i as u64,
                data_preview: String::new(),
            })
            .collect(),
    }
}

#[test]
fn finding_score_empty_is_zero() {
    assert_eq!(score_finding(&[]), 0);
}

#[test]
fn finding_score_follows_formula_and_stays_in_band() {
    // 50 + 10 * 2 rules + 2 * 3 hits.
    assert_eq!(score_finding(&[rmatch("a", 1), rmatch("b", 2)]), 76);
    // One rule, no hits.
    assert_eq!(score_finding(&[rmatch("a", 0)]), 60);
    // Caps at 100.
    let many: Vec<YaraRuleMatch> = (0..9).map(|i| rmatch(&format!("r{i}"), 4)).collect();
    assert_eq!(score_finding(&many), 100);
    // Any nonempty input lands in 50..=100.
    for n in 1..6 {
        let ms: Vec<YaraRuleMatch> = (0..n).map(|i| rmatch(&format!("r{i}"), i)).collect();
        let s = score_finding(&ms);
        assert!((50..=100).contains(&s));
    }
}
