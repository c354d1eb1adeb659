//! Presentation helpers: printable previews of matched bytes, category and
//! import display names, and friendlier wording for common errors.

use vstd::prelude::*;

use crate::api::ApiCategory;
use crate::api::ApiImport;
use crate::format::hex_pair_upper;
use crate::format::push_hex_pair_upper;
use crate::text::ascii_lower;
use crate::text::contains_seq;
use crate::text::contains_sub;
use crate::text::lower_seq;

verus! {

/// A byte that can be shown as itself.
pub open spec fn printable_byte(b: u8) -> bool {
    0x20 <= b <= 0x7e
}

/// The bytes read as characters.
pub open spec fn bytes_as_chars(s: Seq<u8>) -> Seq<char> {
    s.map_values(|b: u8| b as char)
}

/// Upper-case hex pairs joined by single spaces.
pub open spec fn hex_join_upper(s: Seq<u8>) -> Seq<char>
    decreases s.len(),
{
    if s.len() == 0 {
        Seq::empty()
    } else if s.len() == 1 {
        hex_pair_upper(s[0])
    } else {
        hex_join_upper(s.drop_last()) + seq![' '] + hex_pair_upper(s.last())
    }
}

/// Every byte of the sequence is printable.
pub open spec fn all_printable_bytes(s: Seq<u8>) -> bool {
    forall|i: int| 0 <= i < s.len() ==> printable_byte(#[trigger] s[i])
}

/// The preview of matched data: at most its first 48 bytes, shown verbatim
/// when they are all printable, otherwise as space-separated hex pairs.
pub open spec fn preview_spec(data: Seq<u8>) -> Seq<char> {
    let shown = data.take(if data.len() < 48 {
        data.len() as int
    } else {
        48
    });
    if all_printable_bytes(shown) {
        bytes_as_chars(shown)
    } else {
        hex_join_upper(shown)
    }
}

/// Renders a printable preview of matched bytes.
pub fn preview(data: &[u8]) -> (r: String)
    ensures
        r@ == preview_spec(data@),
{
    let take: usize = if data.len() < 48 {
        data.len()
    } else {
        48
    };
    let ghost shown = data@.take(take as int);
    let mut all_printable = true;
    let mut i: usize = 0;
    while i < take
        invariant
            take <= data@.len(),
            shown == data@.take(take as int),
            i <= take,
            all_printable == (forall|j: int| 0 <= j < i ==> printable_byte(#[trigger] shown[j])),
        decreases take - i,
    {
        let b = data[i];
        if !(0x20 <= b && b <= 0x7e) {
            all_printable = false;
            proof {
                assert(!printable_byte(shown[i as int]));
            }
        } else {
            proof {
                assert(printable_byte(shown[i as int]));
            }
        }
        i = i + 1;
    }
    let mut out = String::new();
    if all_printable {
        let mut k: usize = 0;
        while k < take
            invariant
                take <= data@.len(),
                shown == data@.take(take as int),
                k <= take,
                out@ == bytes_as_chars(shown.take(k as int)),
            decreases take - k,
        {
            let b = data[k];
            out.push(b as char);
            proof {
                assert(shown.take(k + 1) =~= shown.take(k as int).push(shown[k as int]));
                assert(bytes_as_chars(shown.take(k + 1)) =~= bytes_as_chars(
                    shown.take(k as int),
                ).push(shown[k as int] as char));
            }
            k = k + 1;
        }
        proof {
            assert(shown.take(take as int) =~= shown);
        }
    } else {
        let mut k: usize = 0;
        while k < take
            invariant
                take <= data@.len(),
                shown == data@.take(take as int),
                k <= take,
                out@ == hex_join_upper(shown.take(k as int)),
            decreases take - k,
        {
            if k > 0 {
                out.push(' ');
            }
            let b = data[k];
            push_hex_pair_upper(b, &mut out);
            proof {
                assert(shown.take(k + 1).drop_last() =~= shown.take(k as int));
                assert(shown.take(k + 1).last() == shown[k as int]);
                if k == 0 {
                    assert(hex_join_upper(shown.take(1)) =~= hex_pair_upper(shown[0]));
                    assert(out@ =~= Seq::<char>::empty() + hex_pair_upper(shown[0]));
                } else {
                    assert(out@ =~= hex_join_upper(shown.take(k as int)) + seq![' ']
                        + hex_pair_upper(shown[k as int]));
                }
            }
            k = k + 1;
        }
        proof {
            assert(shown.take(take as int) =~= shown);
        }
    }
    proof {
        let bound = if data@.len() < 48 {
            data@.len() as int
        } else {
            48
        };
        assert(shown =~= data@.take(bound));
        if all_printable {
            assert(out@ == bytes_as_chars(shown));
            assert(all_printable_bytes(shown));
            assert(preview_spec(data@) == bytes_as_chars(shown));
        } else {
            assert(out@ == hex_join_upper(shown));
            let witness = choose|j: int| 0 <= j < take && !printable_byte(shown[j]);
            assert(!printable_byte(shown[witness]));
            assert(!all_printable_bytes(shown));
            assert(preview_spec(data@) == hex_join_upper(shown));
        }
    }
    out
}

/// The display name of a category.
pub open spec fn cat_name_spec(cat: ApiCategory) -> Seq<char> {
    match cat {
        ApiCategory::ProcessInjection => "Process Injection"@,
        ApiCategory::CredentialAccess => "Credential Access"@,
        ApiCategory::Persistence => "Persistence"@,
        ApiCategory::CommandAndControl => "Command & Control"@,
        ApiCategory::Exfiltration => "Exfiltration"@,
        ApiCategory::DefenseEvasion => "Defense Evasion"@,
        ApiCategory::PrivilegeEscalation => "Privilege Escalation"@,
        ApiCategory::Networking => "Networking"@,
        ApiCategory::Crypto => "Crypto"@,
        ApiCategory::Registry => "Registry"@,
        ApiCategory::Process => "Process"@,
        ApiCategory::AntiDebug => "Anti-Debug"@,
        ApiCategory::Other => "Other"@,
    }
}

/// The display name of a category.
pub fn cat_name(cat: &ApiCategory) -> (r: &'static str)
    ensures
        r@ == cat_name_spec(*cat),
{
    match cat {
        ApiCategory::ProcessInjection => "Process Injection",
        ApiCategory::CredentialAccess => "Credential Access",
        ApiCategory::Persistence => "Persistence",
        ApiCategory::CommandAndControl => "Command & Control",
        ApiCategory::Exfiltration => "Exfiltration",
        ApiCategory::DefenseEvasion => "Defense Evasion",
        ApiCategory::PrivilegeEscalation => "Privilege Escalation",
        ApiCategory::Networking => "Networking",
        ApiCategory::Crypto => "Crypto",
        ApiCategory::Registry => "Registry",
        ApiCategory::Process => "Process",
        ApiCategory::AntiDebug => "Anti-Debug",
        ApiCategory::Other => "Other",
    }
}

/// The listing name of an import: the symbol when present and nonempty,
/// otherwise a placeholder.
pub fn api_name_display(a: &ApiImport) -> (r: String)
    ensures
        r@ == match a.name {
            Some(n) => if n@.len() > 0 {
                n@
            } else if a.is_ordinal {
                "ordinal"@
            } else {
                "unknown"@
            },
            None => if a.is_ordinal {
                "ordinal"@
            } else {
                "unknown"@
            },
        },
{
    match &a.name {
        Some(n) => {
            if !n.as_str().is_empty() {
                n.clone()
            } else if a.is_ordinal {
                String::from_str("ordinal")
            } else {
                String::from_str("unknown")
            }
        },
        None => {
            if a.is_ordinal {
                String::from_str("ordinal")
            } else {
                String::from_str("unknown")
            }
        },
    }
}

/// Friendlier wording for the errors an operator hits most.
pub fn pretty_err(e: &str) -> (r: String)
    ensures
        r@ == {
            let lower = lower_seq(e@);
            if contains_seq(lower, "access is denied"@) || contains_seq(
                lower,
                "permission denied"@,
            ) {
                "Access denied while scanning. Try running as Administrator or scan a smaller folder."@
            } else if contains_seq(lower, "cannot find the file"@) || contains_seq(
                lower,
                "os error 2"@,
            ) {
                "File not found. Update rules first, or check your rules directory."@
            } else if contains_seq(lower, "rules compile failed"@) {
                "Rules compile failed. Try Update Rules again."@
            } else {
                e@
            }
        },
{
    let lower = ascii_lower(e);
    if contains_sub(lower.as_str(), "access is denied") || contains_sub(
        lower.as_str(),
        "permission denied",
    ) {
        String::from_str(
            "Access denied while scanning. Try running as Administrator or scan a smaller folder.",
        )
    } else if contains_sub(lower.as_str(), "cannot find the file") || contains_sub(
        lower.as_str(),
        "os error 2",
    ) {
        String::from_str("File not found. Update rules first, or check your rules directory.")
    } else if contains_sub(lower.as_str(), "rules compile failed") {
        String::from_str("Rules compile failed. Try Update Rules again.")
    } else {
        String::from_str(e)
    }
}

} // verus!
