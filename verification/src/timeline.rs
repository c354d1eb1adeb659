//! Timeline output choices and the CSV cell-quoting rule used when event
//! timelines are written as comma-separated rows.

use vstd::prelude::*;

verus! {

/// The shape of a written timeline.
#[derive(Debug, Clone, Copy, PartialEq, Eq, Structural)]
pub enum OutputFormat {
    Jsonl,
    Csv,
}

/// How much of each event a timeline keeps.
#[derive(Debug, Clone, Copy, PartialEq, Eq, Structural)]
pub enum Profile {
    Minimal,
    Standard,
    Verbose,
}

/// A cell must be quoted when it holds a comma, a quote or a line break.
pub open spec fn csv_special(c: char) -> bool {
    c == ',' || c == '"' || c == '\n' || c == '\r'
}

/// Some character of the cell forces quoting.
pub open spec fn csv_needs_quotes(s: Seq<char>) -> bool {
    exists|i: int| 0 <= i < s.len() && csv_special(#[trigger] s[i])
}

/// The cell's text with every quote doubled.
pub open spec fn csv_doubled(s: Seq<char>) -> Seq<char>
    decreases s.len(),
{
    if s.len() == 0 {
        Seq::empty()
    } else {
        csv_doubled(s.drop_last()) + if s.last() == '"' {
            seq!['"', '"']
        } else {
            seq![s.last()]
        }
    }
}

/// A cell as it is written: unchanged when harmless, otherwise quoted with
/// inner quotes doubled.
pub open spec fn csv_cell_spec(s: Seq<char>) -> Seq<char> {
    if csv_needs_quotes(s) {
        seq!['"'] + csv_doubled(s) + seq!['"']
    } else {
        s
    }
}

/// Writes one CSV cell, quoting exactly when the content demands it.
pub fn csv_escape_cell(s: &str) -> (r: String)
    ensures
        r@ == csv_cell_spec(s@),
{
    let n = s.unicode_len();
    let mut needs = false;
    let mut i: usize = 0;
    while i < n
        invariant
            n == s@.len(),
            i <= n,
            needs == (exists|j: int| 0 <= j < i && csv_special(#[trigger] s@[j])),
        decreases n - i,
    {
        let c = s.get_char(i);
        if c == ',' || c == '"' || c == '\n' || c == '\r' {
            needs = true;
            proof {
                assert(csv_special(s@[i as int]));
            }
        } else {
            proof {
                assert(!csv_special(s@[i as int]));
            }
        }
        i = i + 1;
    }
    if !needs {
        proof {
            assert(!csv_needs_quotes(s@));
        }
        return String::from_str(s);
    }
    let mut out = String::new();
    out.push('"');
    let mut k: usize = 0;
    while k < n
        invariant
            n == s@.len(),
            k <= n,
            out@ == seq!['"'] + csv_doubled(s@.take(k as int)),
        decreases n - k,
    {
        let c = s.get_char(k);
        if c == '"' {
            out.push('"');
            out.push('"');
        } else {
            out.push(c);
        }
        proof {
            assert(s@.take(k + 1).drop_last() =~= s@.take(k as int));
            assert(s@.take(k + 1).last() == s@[k as int]);
            if s@[k as int] == '"' {
                assert(out@ =~= seq!['"'] + (csv_doubled(s@.take(k as int)) + seq!['"', '"']));
            } else {
                assert(out@ =~= seq!['"'] + (csv_doubled(s@.take(k as int)) + seq![s@[k as int]]));
            }
        }
        k = k + 1;
    }
    out.push('"');
    proof {
        assert(s@.take(n as int) =~= s@);
        assert(csv_needs_quotes(s@));
        assert(out@ =~= seq!['"'] + csv_doubled(s@) + seq!['"']);
    }
    out
}

} // verus!
