use revelation::api::{ApiCategory, ApiImport};
use revelation::score::score;

fn imp(dll: &str, name: &str) -> ApiImport {
    ApiImport { dll: dll.to_string(), name: Some(name.to_string()), is_ordinal: false, ordinal: None }
}

fn ordinal_imp(dll: &str, ordinal: u16) -> ApiImport {
    ApiImport { dll: dll.to_string(), name: None, is_ordinal: true, ordinal: Some(ordinal) }
}

#[test]
fn score_of_empty_list_is_all_zero() {
    let res = score(&[]);
    assert!(!res.is_pe);
    assert_eq!(res.total_score, 0);
    assert_eq!(res.severity, "None");
    assert_eq!(res.imports_total, 0);
    assert_eq!(res.suspicious_total, 0);
    assert!(res.top.is_empty());
    assert!(res.category_scores.is_empty());
    assert_eq!(res.note.as_deref(), Some("No imports extracted"));
}

#[test]
fn injection_pair_reaches_high() {
    let imports = vec![imp("ntdll.dll", "VirtualAllocEx"), imp("ntdll.dll", "WriteProcessMemory")];
    let res = score(&imports);
    assert!(res.is_pe);
    assert_eq!(res.imports_total, 2);
    assert_eq!(res.suspicious_total, 2);
    assert_eq!(res.total_score, 100);
    assert_eq!(res.severity, "High");
    assert_eq!(res.top.len(), 2);
    for f in &res.top {
        assert_eq!(f.category, ApiCategory::ProcessInjection);
        assert_eq!(f.score, 65);
        assert!(f.reasons.contains(&"High-signal API".to_string()));
    }
    assert_eq!(res.category_scores.len(), 1);
    assert_eq!(res.category_scores[0].0, ApiCategory::ProcessInjection);
    assert_eq!(res.category_scores[0].1, 100);
}

#[test]
fn scores_stay_within_bounds() {
    let mut imports = Vec::new();
    for i in 0..20 {
        imports.push(imp("ntdll.dll", &format!("CreateRemoteThread{i}")));
        imports.push(ordinal_imp("mystery.dll", i as u16));
        imports.push(imp("ws2_32.dll", &format!("send{i}")));
    }
    let res = score(&imports);
    assert!(res.total_score <= 100);
    for (_, v) in &res.category_scores {
        assert!(*v >= 1 && *v <= 100);
    }
    for f in &res.top {
        assert!(f.score <= 100);
    }
    assert!(res.top.len() <= 50);
}

#[test]
fn top_is_sorted_descending_and_ties_keep_input_order() {
    let imports = vec![
        imp("advapi32.dll", "RegCreateKeyW"),
        imp("ntdll.dll", "QueueUserAPC"),
        imp("advapi32.dll", "RegOpenKeyW"),
    ];
    let res = score(&imports);
    assert_eq!(res.suspicious_total, 3);
    assert_eq!(res.top[0].score, 45);
    assert_eq!(res.top[0].api.name.as_deref(), Some("QueueUserAPC"));
    assert_eq!(res.top[1].score, 18);
    assert_eq!(res.top[1].api.name.as_deref(), Some("RegCreateKeyW"));
    assert_eq!(res.top[2].score, 18);
    assert_eq!(res.top[2].api.name.as_deref(), Some("RegOpenKeyW"));
}

#[test]
fn severity_thresholds_from_totals() {
    // One networking import: 22 points, Low.
    let res = score(&[imp("wininet.dll", "InternetOpenW")]);
    assert_eq!(res.total_score, 22);
    assert_eq!(res.severity, "Low");

    // Three ordinal imports: Other at 20 each, capped sum 60, Medium.
    let imports = vec![ordinal_imp("a.dll", 1), ordinal_imp("a.dll", 2), ordinal_imp("a.dll", 3)];
    let res = score(&imports);
    assert_eq!(res.total_score, 60);
    assert_eq!(res.severity, "Medium");

    // Unsuspicious imports only: zero, None.
    let res = score(&[imp("user32.dll", "MessageBoxW")]);
    assert!(res.is_pe);
    assert_eq!(res.suspicious_total, 0);
    assert_eq!(res.total_score, 0);
    assert_eq!(res.severity, "None");
    assert!(res.note.is_none());
}

#[test]
fn category_saturation_caps_each_category_at_100() {
    // Six injection imports without bonus names: 45 each, category saturates at 100.
    let mut imports = Vec::new();
    for _ in 0..6 {
        imports.push(imp("ntdll.dll", "QueueUserAPC"));
    }
    let res = score(&imports);
    assert_eq!(res.category_scores.len(), 1);
    assert_eq!(res.category_scores[0].1, 100);
    assert_eq!(res.total_score, 100);
}

#[test]
fn ordinal_import_gets_bonus_and_other_category() {
    let res = score(&[ordinal_imp("somelib.dll", 7)]);
    assert_eq!(res.suspicious_total, 1);
    let f = &res.top[0];
    assert_eq!(f.category, ApiCategory::Other);
    // Base 8 for Other plus the ordinal bonus 12.
    assert_eq!(f.score, 20);
    assert_eq!(f.reasons, vec!["Import by ordinal".to_string(), "High-signal API".to_string()]);
}

#[test]
fn download_primitive_gets_ten_point_bonus() {
    let res = score(&[imp("urlmon.dll", "URLDownloadToFileW")]);
    let f = &res.top[0];
    assert_eq!(f.category, ApiCategory::Networking);
    assert_eq!(f.score, 32);
}

#[test]
fn category_breakdown_is_sorted_by_value() {
    let imports = vec![
        imp("advapi32.dll", "RegSetValueExW"),
        imp("ntdll.dll", "NtUnmapViewOfSection"),
        imp("bcrypt.dll", "BCryptEncrypt"),
    ];
    let res = score(&imports);
    assert_eq!(res.category_scores.len(), 3);
    assert_eq!(res.category_scores[0].0, ApiCategory::ProcessInjection);
    assert_eq!(res.category_scores[0].1, 45);
    let values: Vec<u32> = res.category_scores.iter().map(|p| p.1).collect();
    let mut sorted = values.clone();
    sorted.sort_unstable_by(|a, b| b.cmp(a));
    assert_eq!(values, sorted);
}

#[test]
fn default_analysis_result_is_empty() {
    let d = revelation::api::ApiAnalysisResult::default();
    assert_eq!(d.total_score, 0);
    assert_eq!(d.severity, "None");
    assert_eq!(d.imports_total, 0);
    assert_eq!(d.suspicious_total, 0);
    assert!(d.top.is_empty());
    assert!(d.category_scores.is_empty());
    assert!(!d.is_pe);
    assert!(d.note.is_none());
}
