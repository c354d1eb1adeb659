use revelation::api::{ApiCategory, ApiImport};
use revelation::text::{ascii_lower, contains_sub, has_any};
use revelation::ui::{api_name_display, cat_name, pretty_err, preview};

#[test]
fn ascii_lower_folds_only_ascii_uppercase() {
    assert_eq!(ascii_lower("KERNEL32.DLL"), "kernel32.dll");
    assert_eq!(ascii_lower("MiXeD_09!"), "mixed_09!");
    assert_eq!(ascii_lower(""), "");
}

#[test]
fn contains_sub_finds_substrings() {
    assert!(contains_sub("createremotethread", "remote"));
    assert!(contains_sub("abc", ""));
    assert!(!contains_sub("", "a"));
    assert!(!contains_sub("abc", "abcd"));
    assert!(contains_sub("aaab", "aab"));
}

#[test]
fn has_any_checks_each_needle() {
    assert!(has_any("internetopenurl", &["nope", "internetopen"]));
    assert!(!has_any("harmless", &["evil", "worse"]));
    assert!(!has_any("anything", &[]));
}

#[test]
fn import_name_helpers_fold_case() {
    let a = ApiImport {
        dll: "WS2_32.DLL".to_string(),
        name: Some("WSAStartup".to_string()),
        is_ordinal: false,
        ordinal: None,
    };
    assert_eq!(a.dll_lower(), "ws2_32.dll");
    assert_eq!(a.name_lower(), "wsastartup");
    assert_eq!(a.display_name(), "WSAStartup");
}

#[test]
fn display_name_of_ordinal_import() {
    let a = ApiImport {
        dll: "x.dll".to_string(),
        name: None,
        is_ordinal: true,
        ordinal: Some(137),
    };
    assert_eq!(a.display_name(), "#137");
    assert_eq!(a.name_lower(), "");
    let b = ApiImport { dll: "x.dll".to_string(), name: None, is_ordinal: false, ordinal: None };
    assert_eq!(b.display_name(), "");
}

#[test]
fn api_name_display_placeholders() {
    let named = ApiImport {
        dll: "a".to_string(),
        name: Some("Connect".to_string()),
        is_ordinal: false,
        ordinal: None,
    };
    assert_eq!(api_name_display(&named), "Connect");
    let blank = ApiImport {
        dll: "a".to_string(),
        name: Some(String::new()),
        is_ordinal: true,
        ordinal: Some(1),
    };
    assert_eq!(api_name_display(&blank), "ordinal");
    let unknown = ApiImport { dll: "a".to_string(), name: None, is_ordinal: false, ordinal: None };
    assert_eq!(api_name_display(&unknown), "unknown");
}

#[test]
fn category_names_for_display() {
    assert_eq!(cat_name(&ApiCategory::ProcessInjection), "Process Injection");
    assert_eq!(cat_name(&ApiCategory::CommandAndControl), "Command & Control");
    assert_eq!(cat_name(&ApiCategory::AntiDebug), "Anti-Debug");
    assert_eq!(cat_name(&ApiCategory::Other), "Other");
}

#[test]
fn preview_keeps_printable_bytes() {
    assert_eq!(preview(b"hello world"), "hello world");
    assert_eq!(preview(b""), "");
}

#[test]
fn preview_hex_dumps_binary_bytes() {
    assert_eq!(preview(&[0xde, 0xad, 0x00]), "DE AD 00");
    assert_eq!(preview(&[0x00]), "00");
}

#[test]
fn preview_truncates_to_48_bytes() {
    let data = vec![b'a'; 60];
    assert_eq!(preview(&data), "a".repeat(48));
    let mut binary = vec![0u8; 50];
    binary[49] = 0xff;
    // The unprintable byte beyond 48 is cut off; the shown prefix is printable? No:
    // zero bytes are unprintable, so the first 48 are hex pairs.
    let expected = vec!["00"; 48].join(" ");
    assert_eq!(preview(&binary), expected);
}

#[test]
fn pretty_err_rewrites_known_messages() {
    assert_eq!(
        pretty_err("io error: Permission Denied while opening"),
        "Access denied while scanning. Try running as Administrator or scan a smaller folder."
    );
    assert_eq!(
        pretty_err("The system cannot find the file specified"),
        "File not found. Update rules first, or check your rules directory."
    );
    assert_eq!(pretty_err("YARA rules compile failed: line 3"), "Rules compile failed. Try Update Rules again.");
    assert_eq!(pretty_err("some other problem"), "some other problem");
}
