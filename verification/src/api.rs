//! Data model of the executable-import analysis: one import entry, its risk
//! category, the per-import finding and the per-file aggregate.

use vstd::prelude::*;

use crate::format::dec_digits;
use crate::format::u64_to_dec;
use crate::text::lower_seq;
use crate::text::ascii_lower;

verus! {

/// Risk category of one import, a closed enumeration.
#[derive(Debug, Clone, Copy, PartialEq, Eq, Hash, Structural)]
pub enum ApiCategory {
    ProcessInjection,
    CredentialAccess,
    Persistence,
    CommandAndControl,
    Exfiltration,
    DefenseEvasion,
    PrivilegeEscalation,
    Networking,
    Crypto,
    Registry,
    Process,
    AntiDebug,
    Other,
}

/// One (library, symbol-or-ordinal) pair declared by an executable.
#[derive(Debug, Clone)]
pub struct ApiImport {
    pub dll: String,
    pub name: Option<String>,
    pub is_ordinal: bool,
    pub ordinal: Option<u16>,
}

impl ApiImport {
    /// An import is marked ordinal-only exactly when it has no symbol name
    /// but carries an ordinal.
    pub open spec fn wf(self) -> bool {
        self.is_ordinal <==> (self.name is None && self.ordinal is Some)
    }

    /// The lower-cased symbol name, or empty when the import has none.
    pub open spec fn spec_name_lower(self) -> Seq<char> {
        match self.name {
            Some(n) => lower_seq(n@),
            None => Seq::empty(),
        }
    }

    /// Lower-cased library name.
    pub fn dll_lower(&self) -> (r: String)
        ensures
            r@ == lower_seq(self.dll@),
    {
        ascii_lower(self.dll.as_str())
    }

    /// Lower-cased symbol name, empty when absent.
    pub fn name_lower(&self) -> (r: String)
        ensures
            r@ == self.spec_name_lower(),
    {
        match &self.name {
            Some(n) => ascii_lower(n.as_str()),
            None => String::new(),
        }
    }

    /// An equal copy. The derived clone carries no contract, so code that
    /// must relate the copy to the original uses this one.
    pub(crate) fn duplicate(&self) -> (r: Self)
        ensures
            r == *self,
    {
        let name = match &self.name {
            Some(n) => Some(n.clone()),
            None => None,
        };
        ApiImport {
            dll: self.dll.clone(),
            name,
            is_ordinal: self.is_ordinal,
            ordinal: self.ordinal,
        }
    }

    /// The form shown in listings: the symbol name when present, `#ordinal`
    /// for an ordinal-only import, empty otherwise.
    pub fn display_name(&self) -> (r: String)
        ensures
            r@ == match self.name {
                Some(n) => n@,
                None => if self.is_ordinal && self.ordinal is Some {
                    seq!['#'] + dec_digits(self.ordinal->0 as nat)
                } else {
                    Seq::<char>::empty()
                },
            },
    {
        match (&self.name, self.is_ordinal, self.ordinal) {
            (Some(n), _, _) => n.clone(),
            (None, true, Some(o)) => {
                let mut out = String::new();
                out.push('#');
                let digits = u64_to_dec(o as u64);
                out.append(digits.as_str());
                proof {
                    assert(Seq::<char>::empty().push('#') + dec_digits(o as nat) =~= seq!['#']
                        + dec_digits(o as nat));
                }
                out
            },
            _ => String::new(),
        }
    }
}

/// One suspicious import with its category, points and justifications.
#[derive(Debug, Clone)]
pub struct ApiFinding {
    pub api: ApiImport,
    pub category: ApiCategory,
    pub score: u32,
    pub reasons: Vec<String>,
}

/// Per-file aggregate of the import analysis.
#[derive(Debug, Clone)]
pub struct ApiAnalysisResult {
    pub total_score: u32,
    pub severity: String,
    pub imports_total: usize,
    pub suspicious_total: usize,
    pub top: Vec<ApiFinding>,
    pub category_scores: Vec<(ApiCategory, u32)>,
    pub is_pe: bool,
    pub note: Option<String>,
}

impl Default for ApiAnalysisResult {
    /// The all-zero result: no imports, severity `"None"`, nothing suspicious.
    fn default() -> (r: Self)
        ensures
            r.total_score == 0,
            r.severity@ == "None"@,
            r.imports_total == 0,
            r.suspicious_total == 0,
            r.top@ == Seq::<ApiFinding>::empty(),
            r.category_scores@ == Seq::<(ApiCategory, u32)>::empty(),
            !r.is_pe,
            r.note is None,
    {
        ApiAnalysisResult {
            total_score: 0,
            severity: String::from_str("None"),
            imports_total: 0,
            suspicious_total: 0,
            top: Vec::new(),
            category_scores: Vec::new(),
            is_pe: false,
            note: None,
        }
    }
}

} // verus!
