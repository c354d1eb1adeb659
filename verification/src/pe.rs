//! Import-table extraction from executable image bytes.
//!
//! The header parsing itself is done by goblin; this module turns the raw
//! (library, symbol, ordinal) triples into the model type, deciding which
//! entries are symbol imports and which are ordinal-only.

use vstd::prelude::*;

use crate::api::ApiImport;

verus! {

/// One entry of the import table as the parser hands it over: library name,
/// symbol name (possibly blank) and ordinal (0 when absent).
#[derive(Debug, Clone)]
pub struct RawImport {
    pub dll: String,
    pub name: String,
    pub ordinal: u16,
}

impl View for RawImport {
    type V = (Seq<char>, Seq<char>, u16);

    open spec fn view(&self) -> (Seq<char>, Seq<char>, u16) {
        (self.dll@, self.name@, self.ordinal)
    }
}

/// The views of a raw import list.
pub open spec fn raw_views(s: Seq<RawImport>) -> Seq<(Seq<char>, Seq<char>, u16)> {
    s.map_values(|ri: RawImport| ri@)
}

/// The import table that the PE parser reads out of `bytes`: `None` when the
/// bytes are not a well-formed PE image, otherwise the (library, symbol,
/// ordinal) triples in table order. A function of the bytes alone.
pub uninterp spec fn pe_import_table(bytes: Seq<u8>) -> Option<Seq<(Seq<char>, Seq<char>, u16)>>;

/// Relies on goblin::pe::PE::parse: success and the parsed import table
/// (entries of `pe.imports`, each with its `dll`, `name` and `ordinal`)
/// depend on the bytes alone.
#[verifier::external_body]
fn parse_pe_imports(bytes: &[u8]) -> (r: Result<Vec<RawImport>, String>)
    ensures
        r is Ok <==> pe_import_table(bytes@) is Some,
        r is Ok ==> raw_views(r->Ok_0@) == pe_import_table(bytes@)->Some_0,
{
    match goblin::pe::PE::parse(bytes) {
        Ok(pe) => Ok(
            pe.imports.iter().map(
                |imp| RawImport {
                    dll: imp.dll.to_string(),
                    name: imp.name.to_string(),
                    ordinal: imp.ordinal,
                },
            ).collect(),
        ),
        Err(e) => Err(format!("{e}")),
    }
}

/// ASCII whitespace.
pub open spec fn is_space(c: char) -> bool {
    c == ' ' || c == '\t' || c == '\n' || c == '\r'
}

/// A name that is empty or all whitespace counts as absent.
pub open spec fn is_blank_seq(s: Seq<char>) -> bool {
    forall|i: int| 0 <= i < s.len() ==> is_space(#[trigger] s[i])
}

fn is_blank(s: &str) -> (r: bool)
    ensures
        r == is_blank_seq(s@),
{
    let n = s.unicode_len();
    let mut i: usize = 0;
    while i < n
        invariant
            n == s@.len(),
            i <= n,
            forall|j: int| 0 <= j < i ==> is_space(#[trigger] s@[j]),
        decreases n - i,
    {
        let c = s.get_char(i);
        if !(c == ' ' || c == '\t' || c == '\n' || c == '\r') {
            return false;
        }
        i = i + 1;
    }
    true
}

/// How one raw table entry becomes a model import: a blank symbol name means
/// no symbol, ordinal 0 means no ordinal, and the entry is ordinal-only
/// exactly when it has an ordinal but no symbol.
pub open spec fn api_import_of(t: (Seq<char>, Seq<char>, u16), imp: ApiImport) -> bool {
    let blank = is_blank_seq(t.1);
    &&& imp.dll@ == t.0
    &&& (if blank {
        imp.name is None
    } else {
        imp.name is Some && imp.name->0@ == t.1
    })
    &&& (if t.2 == 0 {
        imp.ordinal is None
    } else {
        imp.ordinal == Some(t.2)
    })
    &&& imp.is_ordinal == (blank && t.2 != 0)
}

/// Reads the import table of an executable image from its bytes. Fails
/// exactly when the bytes are not a recognized executable; every returned
/// import satisfies the ordinal-import invariant.
pub fn imports_from_bytes(bytes: &[u8]) -> (r: Result<Vec<ApiImport>, String>)
    ensures
        r is Ok <==> pe_import_table(bytes@) is Some,
        r is Ok ==> {
            let table = pe_import_table(bytes@)->Some_0;
            &&& r->Ok_0@.len() == table.len()
            &&& forall|i: int|
                0 <= i < table.len() ==> api_import_of(table[i], #[trigger] r->Ok_0@[i])
            &&& forall|i: int| 0 <= i < table.len() ==> (#[trigger] r->Ok_0@[i]).wf()
        },
{
    let raws = match parse_pe_imports(bytes) {
        Ok(v) => v,
        Err(e) => {
            return Err(e);
        },
    };
    let ghost table = pe_import_table(bytes@)->Some_0;
    proof {
        assert(raw_views(raws@).len() == table.len());
    }
    let n = raws.len();
    let mut out: Vec<ApiImport> = Vec::new();
    let mut i: usize = 0;
    while i < n
        invariant
            n == raws@.len(),
            i <= n,
            raw_views(raws@) == table,
            out@.len() == i,
            forall|j: int| 0 <= j < i ==> api_import_of(table[j], #[trigger] out@[j]),
            forall|j: int| 0 <= j < i ==> (#[trigger] out@[j]).wf(),
        decreases n - i,
    {
        let ri = &raws[i];
        let blank = is_blank(ri.name.as_str());
        let name = if blank {
            None
        } else {
            Some(ri.name.clone())
        };
        let ordinal = if ri.ordinal == 0 {
            None
        } else {
            Some(ri.ordinal)
        };
        let is_ordinal = name.is_none() && ordinal.is_some();
        out.push(ApiImport { dll: ri.dll.clone(), name, is_ordinal, ordinal });
        proof {
            assert(raws@[i as int]@ == table[i as int]);
        }
        i = i + 1;
    }
    Ok(out)
}

/// Extracts the import table of an executable from its bytes; failure is the
/// expected outcome for files that are not executables.
pub fn extract_imports(bytes: &[u8]) -> (r: Result<Vec<ApiImport>, String>)
    ensures
        r is Ok <==> pe_import_table(bytes@) is Some,
        r is Ok ==> {
            let table = pe_import_table(bytes@)->Some_0;
            &&& r->Ok_0@.len() == table.len()
            &&& forall|i: int|
                0 <= i < table.len() ==> api_import_of(table[i], #[trigger] r->Ok_0@[i])
            &&& forall|i: int| 0 <= i < table.len() ==> (#[trigger] r->Ok_0@[i]).wf()
        },
{
    imports_from_bytes(bytes)
}

} // verus!
