//! Maps one import entry to a risk category and a textual justification.
//!
//! The decision policy is a fixed priority list: ordinal-only imports first,
//! then registry writes, process launches, process-injection primitives,
//! networking, cryptographic APIs and anti-debugging probes; anything else is
//! unsuspicious. Matching is substring containment on the lower-cased
//! library and symbol names.

use vstd::prelude::*;

use crate::api::ApiCategory;
use crate::api::ApiImport;
use crate::text::contains_any;
use crate::text::contains_seq;
use crate::text::has_any;
use crate::text::lower_seq;

verus! {

/// One import together with its classification.
#[derive(Debug, Clone)]
pub struct ClassifiedImport {
    pub api: ApiImport,
    pub category: ApiCategory,
    pub suspicious: bool,
    pub reasons: Vec<String>,
}

/// Registry-write symbols looked for under a registry-API library.
pub open spec fn registry_needles() -> Seq<Seq<char>> {
    seq!["regsetvalue"@, "regcreatekey"@, "regopenkey"@]
}

/// Process-launch symbols looked for under a process-API library.
pub open spec fn process_needles() -> Seq<Seq<char>> {
    seq!["createprocess"@, "winexec"@, "shellexecute"@]
}

/// Process-injection primitives, matched regardless of library.
pub open spec fn injection_needles() -> Seq<Seq<char>> {
    seq![
        "createremotethread"@,
        "virtualallocex"@,
        "writeprocessmemory"@,
        "openprocess"@,
        "setthreadcontext"@,
        "getthreadcontext"@,
        "resumethread"@,
        "rtlmovememory"@,
        "ntunmapviewofsection"@,
        "queueuserapc"@,
    ]
}

/// Networking primitives.
pub open spec fn networking_needles() -> Seq<Seq<char>> {
    seq![
        "internetopen"@,
        "internetconnect"@,
        "httpopenrequest"@,
        "httpsendrequest"@,
        "internetreadfile"@,
        "urldownloadtofile"@,
        "winhttpopen"@,
        "winhttpsendrequest"@,
        "winhttpreceiveresponse"@,
        "wsastartup"@,
        "connect"@,
        "recv"@,
        "send"@,
    ]
}

/// Cryptographic API primitives.
pub open spec fn crypto_needles() -> Seq<Seq<char>> {
    seq![
        "cryptacquirecontext"@,
        "cryptencrypt"@,
        "cryptdecrypt"@,
        "bcrypt"@,
        "bcryptencrypt"@,
        "bcryptdecrypt"@,
    ]
}

/// Anti-debugging primitives.
pub open spec fn antidebug_needles() -> Seq<Seq<char>> {
    seq!["isdebuggerpresent"@, "checkremotedebuggerpresent"@, "ntqueryinformationprocess"@]
}

/// The registry rule: a registry-write symbol under a registry-API library.
pub open spec fn registry_rule(dll: Seq<char>, api: Seq<char>) -> bool {
    contains_seq(dll, "advapi32"@) && contains_any(api, registry_needles())
}

/// The process-launch rule.
pub open spec fn process_rule(dll: Seq<char>, api: Seq<char>) -> bool {
    contains_seq(dll, "kernel32"@) && contains_any(api, process_needles())
}

/// The injection rule: any injection primitive, whatever the library.
pub open spec fn injection_rule(api: Seq<char>) -> bool {
    contains_any(api, injection_needles())
}

/// The networking rule: a networking symbol, or a known networking library.
pub open spec fn networking_rule(dll: Seq<char>, api: Seq<char>) -> bool {
    contains_any(api, networking_needles()) || contains_seq(dll, "wininet"@) || contains_seq(
        dll,
        "winhttp"@,
    ) || contains_seq(dll, "ws2_32"@)
}

/// The crypto rule.
pub open spec fn crypto_rule(api: Seq<char>) -> bool {
    contains_any(api, crypto_needles())
}

/// The anti-debug rule.
pub open spec fn antidebug_rule(api: Seq<char>) -> bool {
    contains_any(api, antidebug_needles())
}

/// The whole classification of one import: category, suspicious flag and
/// justification strings. The rules are tried in fixed priority order and
/// the first that fires wins; in particular an injection primitive is always
/// reported as `ProcessInjection` even when a lower-priority rule would also
/// match.
pub open spec fn classify_spec(imp: ApiImport) -> (ApiCategory, bool, Seq<Seq<char>>) {
    let dll = lower_seq(imp.dll@);
    let api = imp.spec_name_lower();
    if imp.is_ordinal {
        (ApiCategory::Other, true, seq!["Import by ordinal"@])
    } else if registry_rule(dll, api) {
        (ApiCategory::Registry, true, seq!["Registry modification"@])
    } else if process_rule(dll, api) {
        (ApiCategory::Process, true, seq!["Process execution"@])
    } else if injection_rule(api) {
        (ApiCategory::ProcessInjection, true, seq!["Common injection primitive"@])
    } else if networking_rule(dll, api) {
        (ApiCategory::Networking, true, seq!["Network capability"@])
    } else if crypto_rule(api) {
        (ApiCategory::Crypto, true, seq!["Crypto API usage"@])
    } else if antidebug_rule(api) {
        (ApiCategory::AntiDebug, true, seq!["Anti-debug technique"@])
    } else {
        (ApiCategory::Other, false, Seq::empty())
    }
}

fn reason_vec(s: &str) -> (r: Vec<String>)
    ensures
        r.deep_view() == seq![s@],
{
    let mut v: Vec<String> = Vec::new();
    v.push(String::from_str(s));
    proof {
        assert(v.deep_view() =~= seq![s@]);
    }
    v
}

fn classify_one(imp: &ApiImport) -> (r: (ApiCategory, bool, Vec<String>))
    ensures
        (r.0, r.1, r.2.deep_view()) == classify_spec(*imp),
{
    let dll = imp.dll_lower();
    let api = imp.name_lower();

    if imp.is_ordinal {
        return (ApiCategory::Other, true, reason_vec("Import by ordinal"));
    }

    let registry_ns: &[&str] = &["regsetvalue", "regcreatekey", "regopenkey"];
    if contains_sub_str(&dll, "advapi32") && has_any(api.as_str(), registry_ns) {
        proof {
            assert(registry_ns.deep_view() =~= registry_needles());
        }
        return (ApiCategory::Registry, true, reason_vec("Registry modification"));
    }
    proof {
        assert(registry_ns.deep_view() =~= registry_needles());
    }

    let process_ns: &[&str] = &["createprocess", "winexec", "shellexecute"];
    if contains_sub_str(&dll, "kernel32") && has_any(api.as_str(), process_ns) {
        proof {
            assert(process_ns.deep_view() =~= process_needles());
        }
        return (ApiCategory::Process, true, reason_vec("Process execution"));
    }
    proof {
        assert(process_ns.deep_view() =~= process_needles());
    }

    let injection_ns: &[&str] = &[
        "createremotethread",
        "virtualallocex",
        "writeprocessmemory",
        "openprocess",
        "setthreadcontext",
        "getthreadcontext",
        "resumethread",
        "rtlmovememory",
        "ntunmapviewofsection",
        "queueuserapc",
    ];
    if has_any(api.as_str(), injection_ns) {
        proof {
            assert(injection_ns.deep_view() =~= injection_needles());
        }
        return (ApiCategory::ProcessInjection, true, reason_vec("Common injection primitive"));
    }
    proof {
        assert(injection_ns.deep_view() =~= injection_needles());
    }

    let networking_ns: &[&str] = &[
        "internetopen",
        "internetconnect",
        "httpopenrequest",
        "httpsendrequest",
        "internetreadfile",
        "urldownloadtofile",
        "winhttpopen",
        "winhttpsendrequest",
        "winhttpreceiveresponse",
        "wsastartup",
        "connect",
        "recv",
        "send",
    ];
    if has_any(api.as_str(), networking_ns) || contains_sub_str(&dll, "wininet")
        || contains_sub_str(&dll, "winhttp") || contains_sub_str(&dll, "ws2_32") {
        proof {
            assert(networking_ns.deep_view() =~= networking_needles());
        }
        return (ApiCategory::Networking, true, reason_vec("Network capability"));
    }
    proof {
        assert(networking_ns.deep_view() =~= networking_needles());
    }

    let crypto_ns: &[&str] = &[
        "cryptacquirecontext",
        "cryptencrypt",
        "cryptdecrypt",
        "bcrypt",
        "bcryptencrypt",
        "bcryptdecrypt",
    ];
    if has_any(api.as_str(), crypto_ns) {
        proof {
            assert(crypto_ns.deep_view() =~= crypto_needles());
        }
        return (ApiCategory::Crypto, true, reason_vec("Crypto API usage"));
    }
    proof {
        assert(crypto_ns.deep_view() =~= crypto_needles());
    }

    let antidebug_ns: &[&str] = &[
        "isdebuggerpresent",
        "checkremotedebuggerpresent",
        "ntqueryinformationprocess",
    ];
    if has_any(api.as_str(), antidebug_ns) {
        proof {
            assert(antidebug_ns.deep_view() =~= antidebug_needles());
        }
        return (ApiCategory::AntiDebug, true, reason_vec("Anti-debug technique"));
    }
    proof {
        assert(antidebug_ns.deep_view() =~= antidebug_needles());
    }

    (ApiCategory::Other, false, Vec::new())
}

fn contains_sub_str(hay: &String, needle: &str) -> (r: bool)
    ensures
        r == contains_seq(hay@, needle@),
{
    crate::text::contains_sub(hay.as_str(), needle)
}

/// Classifies every import of the list, in order.
pub fn classify_imports(imports: &[ApiImport]) -> (r: Vec<ClassifiedImport>)
    ensures
        r@.len() == imports@.len(),
        forall|i: int|
            0 <= i < r@.len() ==> {
                let c = #[trigger] r@[i];
                let s = classify_spec(imports@[i]);
                &&& c.api == imports@[i]
                &&& c.category == s.0
                &&& c.suspicious == s.1
                &&& c.reasons.deep_view() == s.2
            },
{
    let n = imports.len();
    let mut out: Vec<ClassifiedImport> = Vec::new();
    let mut i: usize = 0;
    while i < n
        invariant
            n == imports@.len(),
            i <= n,
            out@.len() == i,
            forall|j: int|
                0 <= j < i ==> {
                    let c = #[trigger] out@[j];
                    let s = classify_spec(imports@[j]);
                    &&& c.api == imports@[j]
                    &&& c.category == s.0
                    &&& c.suspicious == s.1
                    &&& c.reasons.deep_view() == s.2
                },
        decreases n - i,
    {
        let imp = &imports[i];
        let (cat, sus, reasons) = classify_one(imp);
        out.push(ClassifiedImport { api: imp.duplicate(), category: cat, suspicious: sus, reasons });
        i = i + 1;
    }
    out
}

} // verus!
