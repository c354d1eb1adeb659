use revelation::export::{csv_header, csv_rows, sev_short};
use revelation::report::{FileFinding, ScanReport, YaraRuleMatch, YaraStringMatch};
use revelation::rules::{is_yara_ext, plan_update, short_commit, RuleSource, UpdateOptions};
use revelation::timeline::csv_escape_cell;

#[test]
fn short_severity_labels() {
    assert_eq!(sev_short(100), "HIGH");
    assert_eq!(sev_short(85), "HIGH");
    assert_eq!(sev_short(84), "MED");
    assert_eq!(sev_short(60), "MED");
    assert_eq!(sev_short(59), "LOW");
    assert_eq!(sev_short(0), "LOW");
}

fn sample_report() -> ScanReport {
    let hit = YaraStringMatch {
        identifier: "$mz".to_string(),
        offset: 26,
        data_preview: "MZEVIL".to_string(),
    };
    let with_hits = YaraRuleMatch {
        rule: "R1".to_string(),
        namespace: "default".to_string(),
        tags: vec!["trojan".to_string(), "dropper".to_string()],
        meta: vec![],
        strings: vec![hit.clone(), YaraStringMatch { offset: 255, ..hit }],
    };
    let without_hits = YaraRuleMatch {
        rule: "R2".to_string(),
        namespace: "extra".to_string(),
        tags: vec![],
        meta: vec![],
        strings: vec![],
    };
    let finding = FileFinding {
        path: "/tmp/evil.bin".to_string(),
        sha256: Some("aa".repeat(32)),
        size: 1234,
        yara: vec![with_hits, without_hits],
        score: 86,
        api: None,
    };
    ScanReport {
        started_utc: "s".to_string(),
        finished_utc: "f".to_string(),
        scanned_files: 3,
        matched_files: 1,
        findings: vec![finding],
    }
}

#[test]
fn csv_rows_flatten_one_row_per_string_hit() {
    let header: Vec<String> = csv_header();
    assert_eq!(
        header,
        vec![
            "path", "severity", "score", "size", "sha256", "rule", "namespace", "tags",
            "string_id", "string_offset", "string_preview"
        ]
    );
    let rows = csv_rows(&sample_report());
    assert_eq!(rows.len(), 3);
    assert_eq!(rows[0][0], "/tmp/evil.bin");
    assert_eq!(rows[0][1], "HIGH");
    assert_eq!(rows[0][2], "86");
    assert_eq!(rows[0][3], "1234");
    assert_eq!(rows[0][4], "aa".repeat(32));
    assert_eq!(rows[0][5], "R1");
    assert_eq!(rows[0][6], "default");
    assert_eq!(rows[0][7], "trojan|dropper");
    assert_eq!(rows[0][8], "$mz");
    assert_eq!(rows[0][9], "0x1a");
    assert_eq!(rows[0][10], "MZEVIL");
    assert_eq!(rows[1][9], "0xff");
    // The rule without string hits gets one bare row.
    assert_eq!(rows[2][5], "R2");
    assert_eq!(rows[2][8], "");
    assert_eq!(rows[2][9], "");
    assert_eq!(rows[2][10], "");
}

#[test]
fn csv_cells_are_quoted_only_when_needed() {
    assert_eq!(csv_escape_cell("plain"), "plain");
    assert_eq!(csv_escape_cell(""), "");
    assert_eq!(csv_escape_cell("a,b"), "\"a,b\"");
    assert_eq!(csv_escape_cell("say \"hi\""), "\"say \"\"hi\"\"\"");
    assert_eq!(csv_escape_cell("line\nbreak"), "\"line\nbreak\"");
}

#[test]
fn community_update_plan() {
    let opts = UpdateOptions { rules_dir: "rules".to_string(), accept_elastic_elv2: false };
    let plan = plan_update(&RuleSource::YaraRulesCommunity, &opts).unwrap();
    assert_eq!(plan.source_name, "community");
    assert_eq!(plan.repo_url, "https://github.com/Yara-Rules/rules.git");
    assert_eq!(plan.dest_folder, "rules/repos/yara-rules-community");
    assert_eq!(plan.combined_out, "rules/compiled/community_combined.yar");
    assert!(!plan.marker_only);
}

#[test]
fn elastic_requires_license_acceptance() {
    let refused = UpdateOptions { rules_dir: "rules".to_string(), accept_elastic_elv2: false };
    let err = plan_update(&RuleSource::ElasticProtectionsArtifacts, &refused).unwrap_err();
    assert_eq!(
        err,
        "Elastic rules require --accept-elastic-license-2-0 (ELv2). You must explicitly accept the license to download these rules."
    );
    let accepted = UpdateOptions { rules_dir: "rules".to_string(), accept_elastic_elv2: true };
    let plan = plan_update(&RuleSource::ElasticProtectionsArtifacts, &accepted).unwrap();
    assert_eq!(plan.source_name, "elastic");
    assert_eq!(plan.dest_folder, "rules/repos/elastic-protections-artifacts");
}

#[test]
fn hayabusa_plan_is_marker_only() {
    let opts = UpdateOptions { rules_dir: "r".to_string(), accept_elastic_elv2: false };
    let plan = plan_update(&RuleSource::HayabusaRules, &opts).unwrap();
    assert_eq!(plan.source_name, "hayabusa");
    assert_eq!(plan.combined_out, "r/sigma_compiled/hayabusa_rules_dir.marker");
    assert!(plan.marker_only);
}

#[test]
fn yara_extensions_case_insensitive() {
    assert!(is_yara_ext("yar"));
    assert!(is_yara_ext("YARA"));
    assert!(is_yara_ext("Yar"));
    assert!(!is_yara_ext("yml"));
    assert!(!is_yara_ext(""));
}

#[test]
fn commit_ids_are_shortened() {
    assert_eq!(short_commit("0123456789abcdef0123"), "0123456789ab");
    assert_eq!(short_commit("abc"), "abc");
}
