//! Aggregates classified imports into a per-file risk score.
//!
//! Every suspicious import earns its category's base points plus a bonus for
//! high-signal symbols, capped at 100 per finding. Per-category sums and the
//! file total saturate at 100 as well; the severity label is derived from the
//! total by fixed thresholds.

use vstd::prelude::*;

use crate::api::ApiAnalysisResult;
use crate::api::ApiCategory;
use crate::api::ApiFinding;
use crate::api::ApiImport;
use crate::classifier::classify_imports;
use crate::classifier::classify_spec;
use crate::text::contains_seq;

verus! {

/// Severity label for a total score: `>= 85` High, `>= 60` Medium,
/// positive Low, zero None.
pub open spec fn severity_label(total: u32) -> Seq<char> {
    if total >= 85 {
        "High"@
    } else if total >= 60 {
        "Medium"@
    } else if total > 0 {
        "Low"@
    } else {
        "None"@
    }
}

fn sev_from_score(score: u32) -> (r: String)
    ensures
        r@ == severity_label(score),
{
    if score >= 85 {
        String::from_str("High")
    } else if score >= 60 {
        String::from_str("Medium")
    } else if score > 0 {
        String::from_str("Low")
    } else {
        String::from_str("None")
    }
}

/// Base points of one suspicious finding, by category.
pub open spec fn base_points_spec(cat: ApiCategory) -> u32 {
    match cat {
        ApiCategory::ProcessInjection => 45,
        ApiCategory::CredentialAccess => 40,
        ApiCategory::Persistence => 35,
        ApiCategory::CommandAndControl => 30,
        ApiCategory::Exfiltration => 30,
        ApiCategory::DefenseEvasion => 28,
        ApiCategory::PrivilegeEscalation => 28,
        ApiCategory::Networking => 22,
        ApiCategory::Crypto => 18,
        ApiCategory::Registry => 18,
        ApiCategory::Process => 16,
        ApiCategory::AntiDebug => 16,
        ApiCategory::Other => 8,
    }
}

fn base_points(cat: ApiCategory) -> (r: u32)
    ensures
        r == base_points_spec(cat),
{
    match cat {
        ApiCategory::ProcessInjection => 45,
        ApiCategory::CredentialAccess => 40,
        ApiCategory::Persistence => 35,
        ApiCategory::CommandAndControl => 30,
        ApiCategory::Exfiltration => 30,
        ApiCategory::DefenseEvasion => 28,
        ApiCategory::PrivilegeEscalation => 28,
        ApiCategory::Networking => 22,
        ApiCategory::Crypto => 18,
        ApiCategory::Registry => 18,
        ApiCategory::Process => 16,
        ApiCategory::AntiDebug => 16,
        _ => 8,
    }
}

/// Bonus points of one import: +12 for an ordinal import, +20 for a
/// remote-thread / remote-memory primitive, +10 for a download or HTTP-send
/// primitive, else 0.
pub open spec fn bonus_spec(imp: ApiImport) -> u32 {
    if imp.is_ordinal {
        12
    } else {
        let a = imp.spec_name_lower();
        if contains_seq(a, "createremotethread"@) || contains_seq(a, "writeprocessmemory"@)
            || contains_seq(a, "virtualallocex"@) {
            20
        } else if contains_seq(a, "urldownloadtofile"@) || contains_seq(a, "httpsendrequest"@) {
            10
        } else {
            0
        }
    }
}

fn bonus_for(imp: &ApiImport) -> (r: u32)
    ensures
        r == bonus_spec(*imp),
{
    if imp.is_ordinal {
        return 12;
    }
    let a = imp.name_lower();
    if crate::text::contains_sub(a.as_str(), "createremotethread") || crate::text::contains_sub(
        a.as_str(),
        "writeprocessmemory",
    ) || crate::text::contains_sub(a.as_str(), "virtualallocex") {
        20
    } else if crate::text::contains_sub(a.as_str(), "urldownloadtofile")
        || crate::text::contains_sub(a.as_str(), "httpsendrequest") {
        10
    } else {
        0
    }
}

/// Saturation at 100.
pub open spec fn cap100(n: int) -> int {
    if n > 100 {
        100
    } else {
        n
    }
}

/// An import counts as suspicious when some classification rule fired.
pub open spec fn is_suspicious(imp: ApiImport) -> bool {
    classify_spec(imp).1
}

/// Points of one suspicious finding: base plus bonus, capped at 100.
pub open spec fn finding_points(imp: ApiImport) -> int {
    cap100(base_points_spec(classify_spec(imp).0) + bonus_spec(imp))
}

/// The suspicious imports of a list, in order.
pub open spec fn suspicious_of(imports: Seq<ApiImport>) -> Seq<ApiImport> {
    imports.filter(|i: ApiImport| is_suspicious(i))
}

/// The justification strings of one finding: the classifier's reasons, plus
/// a note when a bonus applied.
pub open spec fn reasons_spec(imp: ApiImport) -> Seq<Seq<char>> {
    if bonus_spec(imp) > 0 {
        classify_spec(imp).2.push("High-signal API"@)
    } else {
        classify_spec(imp).2
    }
}

/// `f` is exactly the finding that import `imp` produces.
pub open spec fn finding_rel(f: ApiFinding, imp: ApiImport) -> bool {
    &&& f.api == imp
    &&& f.category == classify_spec(imp).0
    &&& f.score == finding_points(imp)
    &&& f.reasons.deep_view() == reasons_spec(imp)
}

/// `fs` is the finding list of `imports`: one finding per suspicious import,
/// in input order.
pub open spec fn findings_rel(fs: Seq<ApiFinding>, imports: Seq<ApiImport>) -> bool {
    let sus = suspicious_of(imports);
    &&& fs.len() == sus.len()
    &&& forall|k: int| 0 <= k < fs.len() ==> finding_rel(#[trigger] fs[k], sus[k])
}

/// Saturating per-category sum of finding points, over the list in order.
pub open spec fn category_total(imports: Seq<ApiImport>, cat: ApiCategory) -> int
    decreases imports.len(),
{
    if imports.len() == 0 {
        0
    } else {
        let rest = category_total(imports.drop_last(), cat);
        let x = imports.last();
        if is_suspicious(x) && classify_spec(x).0 == cat {
            cap100(rest + finding_points(x))
        } else {
            rest
        }
    }
}

pub proof fn lemma_category_total_bounds(imports: Seq<ApiImport>, cat: ApiCategory)
    ensures
        0 <= category_total(imports, cat) <= 100,
    decreases imports.len(),
{
    if imports.len() > 0 {
        lemma_category_total_bounds(imports.drop_last(), cat);
    }
}

proof fn lemma_category_total_step(prefix: Seq<ApiImport>, x: ApiImport, cat: ApiCategory)
    ensures
        category_total(prefix.push(x), cat) == if is_suspicious(x) && classify_spec(x).0 == cat {
            cap100(category_total(prefix, cat) + finding_points(x))
        } else {
            category_total(prefix, cat)
        },
{
    reveal(Seq::filter);
    assert(prefix.push(x).drop_last() =~= prefix);
    assert(prefix.push(x).last() == x);
}

/// All thirteen categories, in declaration order.
pub open spec fn all_categories() -> Seq<ApiCategory> {
    seq![
        ApiCategory::ProcessInjection,
        ApiCategory::CredentialAccess,
        ApiCategory::Persistence,
        ApiCategory::CommandAndControl,
        ApiCategory::Exfiltration,
        ApiCategory::DefenseEvasion,
        ApiCategory::PrivilegeEscalation,
        ApiCategory::Networking,
        ApiCategory::Crypto,
        ApiCategory::Registry,
        ApiCategory::Process,
        ApiCategory::AntiDebug,
        ApiCategory::Other,
    ]
}

/// The categories with a nonzero total, in declaration order, each with its
/// saturated sum.
pub open spec fn category_pairs(imports: Seq<ApiImport>) -> Seq<(ApiCategory, u32)> {
    all_categories().filter(|c: ApiCategory| category_total(imports, c) > 0).map_values(
        |c: ApiCategory| (c, category_total(imports, c) as u32),
    )
}

/// Sum of the recorded per-category values.
pub open spec fn sum_pair_values(s: Seq<(ApiCategory, u32)>) -> int
    decreases s.len(),
{
    if s.len() == 0 {
        0
    } else {
        sum_pair_values(s.drop_last()) + s.last().1
    }
}

/// The total score: the per-category sums added up, capped at 100.
pub open spec fn total_score_spec(imports: Seq<ApiImport>) -> int {
    cap100(sum_pair_values(category_pairs(imports)))
}

/// Insertion of one finding into a descending-sorted list: it goes after
/// every earlier finding of equal or higher score, which keeps ties in
/// first-seen order.
pub open spec fn insert_finding_desc(x: ApiFinding, s: Seq<ApiFinding>) -> Seq<ApiFinding>
    decreases s.len(),
{
    if s.len() == 0 {
        seq![x]
    } else if s[0].score >= x.score {
        seq![s[0]] + insert_finding_desc(x, s.drop_first())
    } else {
        seq![x] + s
    }
}

/// Stable descending sort of findings by score.
pub open spec fn sort_findings_spec(s: Seq<ApiFinding>) -> Seq<ApiFinding>
    decreases s.len(),
{
    if s.len() == 0 {
        s
    } else {
        insert_finding_desc(s.last(), sort_findings_spec(s.drop_last()))
    }
}

/// Scores never increase along the list.
pub open spec fn findings_sorted_desc(s: Seq<ApiFinding>) -> bool {
    forall|i: int, j: int| 0 <= i < j < s.len() ==> s[i].score >= s[j].score
}

proof fn lemma_insert_finding_len(x: ApiFinding, s: Seq<ApiFinding>)
    ensures
        insert_finding_desc(x, s).len() == s.len() + 1,
    decreases s.len(),
{
    if s.len() > 0 && s[0].score >= x.score {
        lemma_insert_finding_len(x, s.drop_first());
    }
}

proof fn lemma_sort_findings_len(s: Seq<ApiFinding>)
    ensures
        sort_findings_spec(s).len() == s.len(),
    decreases s.len(),
{
    if s.len() > 0 {
        lemma_sort_findings_len(s.drop_last());
        lemma_insert_finding_len(s.last(), sort_findings_spec(s.drop_last()));
    }
}

/// Every element of the inserted list satisfies `p` when the inserted
/// element and every element of the list do.
proof fn lemma_insert_finding_all(x: ApiFinding, s: Seq<ApiFinding>, p: spec_fn(ApiFinding) -> bool)
    requires
        p(x),
        forall|k: int| 0 <= k < s.len() ==> p(#[trigger] s[k]),
    ensures
        forall|k: int|
            0 <= k < insert_finding_desc(x, s).len() ==> p(#[trigger] insert_finding_desc(x, s)[k]),
    decreases s.len(),
{
    if s.len() == 0 {
        assert(insert_finding_desc(x, s)[0] == x);
    } else if s[0].score >= x.score {
        assert(forall|k: int| 0 <= k < s.drop_first().len() ==> p(#[trigger] s.drop_first()[k]));
        lemma_insert_finding_all(x, s.drop_first(), p);
        let rest = insert_finding_desc(x, s.drop_first());
        let whole = insert_finding_desc(x, s);
        assert(forall|k: int| 1 <= k < whole.len() ==> whole[k] == rest[k - 1]);
        assert(whole[0] == s[0]);
    } else {
        let whole = insert_finding_desc(x, s);
        assert(whole[0] == x);
        assert(forall|k: int| 1 <= k < whole.len() ==> whole[k] == s[k - 1]);
    }
}

proof fn lemma_sort_findings_all(s: Seq<ApiFinding>, p: spec_fn(ApiFinding) -> bool)
    requires
        forall|k: int| 0 <= k < s.len() ==> p(#[trigger] s[k]),
    ensures
        forall|k: int|
            0 <= k < sort_findings_spec(s).len() ==> p(#[trigger] sort_findings_spec(s)[k]),
    decreases s.len(),
{
    if s.len() > 0 {
        assert(forall|k: int| 0 <= k < s.drop_last().len() ==> p(#[trigger] s.drop_last()[k]));
        lemma_sort_findings_all(s.drop_last(), p);
        lemma_insert_finding_all(s.last(), sort_findings_spec(s.drop_last()), p);
    }
}

proof fn lemma_insert_finding_sorted(x: ApiFinding, s: Seq<ApiFinding>)
    requires
        findings_sorted_desc(s),
    ensures
        findings_sorted_desc(insert_finding_desc(x, s)),
    decreases s.len(),
{
    if s.len() == 0 {
    } else if s[0].score >= x.score {
        assert(findings_sorted_desc(s.drop_first()));
        lemma_insert_finding_sorted(x, s.drop_first());
        lemma_insert_finding_all(
            x,
            s.drop_first(),
            |e: ApiFinding| e.score <= s[0].score,
        );
        lemma_insert_finding_len(x, s.drop_first());
    } else {
    }
}

proof fn lemma_sort_findings_sorted(s: Seq<ApiFinding>)
    ensures
        findings_sorted_desc(sort_findings_spec(s)),
    decreases s.len(),
{
    if s.len() > 0 {
        lemma_sort_findings_sorted(s.drop_last());
        lemma_insert_finding_sorted(s.last(), sort_findings_spec(s.drop_last()));
    }
}

proof fn lemma_insert_finding_at(x: ApiFinding, s: Seq<ApiFinding>, pos: int)
    requires
        0 <= pos <= s.len(),
        forall|j: int| 0 <= j < pos ==> s[j].score >= x.score,
        pos < s.len() ==> s[pos].score < x.score,
    ensures
        insert_finding_desc(x, s) == s.subrange(0, pos) + seq![x] + s.subrange(pos, s.len() as int),
    decreases s.len(),
{
    if s.len() == 0 {
        assert(insert_finding_desc(x, s) =~= s.subrange(0, pos) + seq![x] + s.subrange(
            pos,
            s.len() as int,
        ));
    } else if pos == 0 {
        assert(insert_finding_desc(x, s) =~= s.subrange(0, pos) + seq![x] + s.subrange(
            pos,
            s.len() as int,
        ));
    } else {
        assert(s[0].score >= x.score);
        lemma_insert_finding_at(x, s.drop_first(), pos - 1);
        assert(seq![s[0]] + (s.drop_first().subrange(0, pos - 1) + seq![x]
            + s.drop_first().subrange(pos - 1, s.drop_first().len() as int)) =~= s.subrange(0, pos)
            + seq![x] + s.subrange(pos, s.len() as int));
    }
}

fn sort_findings_desc(fs: Vec<ApiFinding>) -> (r: Vec<ApiFinding>)
    ensures
        r@ == sort_findings_spec(fs@),
{
    let ghost orig = fs@;
    let mut fs = fs;
    let mut r: Vec<ApiFinding> = Vec::new();
    let n = fs.len();
    let mut i: usize = 0;
    while i < n
        invariant
            n == orig.len(),
            i <= n,
            fs@ == orig.skip(i as int),
            r@ == sort_findings_spec(orig.take(i as int)),
        decreases n - i,
    {
        proof {
            assert(orig.skip(i as int).len() == n - i);
        }
        let x = fs.remove(0);
        proof {
            assert(orig.skip(i as int).remove(0) =~= orig.skip(i + 1));
            assert(x == orig[i as int]);
            lemma_sort_findings_len(orig.take(i as int));
        }
        let mut j: usize = 0;
        while j < r.len() && r[j].score >= x.score
            invariant
                j <= r@.len(),
                forall|k: int| 0 <= k < j ==> r@[k].score >= x.score,
            decreases r@.len() - j,
        {
            j = j + 1;
        }
        proof {
            lemma_insert_finding_at(x, r@, j as int);
        }
        r.insert(j, x);
        proof {
            let prev = orig.take(i as int);
            assert(r@ =~= sort_findings_spec(prev).subrange(0, j as int) + seq![x]
                + sort_findings_spec(prev).subrange(j as int, sort_findings_spec(prev).len() as int));
            assert(orig.take(i + 1).drop_last() =~= prev);
            assert(orig.take(i + 1).last() == orig[i as int]);
        }
        i = i + 1;
    }
    proof {
        assert(orig.take(n as int) =~= orig);
    }
    r
}

/// Insertion of one category pair into a list sorted descending by value,
/// after any earlier pair of equal value.
pub open spec fn insert_pair_desc(x: (ApiCategory, u32), s: Seq<(ApiCategory, u32)>) -> Seq<
    (ApiCategory, u32),
>
    decreases s.len(),
{
    if s.len() == 0 {
        seq![x]
    } else if s[0].1 >= x.1 {
        seq![s[0]] + insert_pair_desc(x, s.drop_first())
    } else {
        seq![x] + s
    }
}

/// Stable descending sort of category pairs by value.
pub open spec fn sort_pairs_spec(s: Seq<(ApiCategory, u32)>) -> Seq<(ApiCategory, u32)>
    decreases s.len(),
{
    if s.len() == 0 {
        s
    } else {
        insert_pair_desc(s.last(), sort_pairs_spec(s.drop_last()))
    }
}

/// Values never increase along the list.
pub open spec fn pairs_sorted_desc(s: Seq<(ApiCategory, u32)>) -> bool {
    forall|i: int, j: int| 0 <= i < j < s.len() ==> s[i].1 >= s[j].1
}

proof fn lemma_insert_pair_all(
    x: (ApiCategory, u32),
    s: Seq<(ApiCategory, u32)>,
    p: spec_fn((ApiCategory, u32)) -> bool,
)
    requires
        p(x),
        forall|k: int| 0 <= k < s.len() ==> p(#[trigger] s[k]),
    ensures
        forall|k: int|
            0 <= k < insert_pair_desc(x, s).len() ==> p(#[trigger] insert_pair_desc(x, s)[k]),
    decreases s.len(),
{
    if s.len() == 0 {
        assert(insert_pair_desc(x, s)[0] == x);
    } else if s[0].1 >= x.1 {
        assert(forall|k: int| 0 <= k < s.drop_first().len() ==> p(#[trigger] s.drop_first()[k]));
        lemma_insert_pair_all(x, s.drop_first(), p);
        let rest = insert_pair_desc(x, s.drop_first());
        let whole = insert_pair_desc(x, s);
        assert(forall|k: int| 1 <= k < whole.len() ==> whole[k] == rest[k - 1]);
        assert(whole[0] == s[0]);
    } else {
        let whole = insert_pair_desc(x, s);
        assert(whole[0] == x);
        assert(forall|k: int| 1 <= k < whole.len() ==> whole[k] == s[k - 1]);
    }
}

proof fn lemma_sort_pairs_all(s: Seq<(ApiCategory, u32)>, p: spec_fn((ApiCategory, u32)) -> bool)
    requires
        forall|k: int| 0 <= k < s.len() ==> p(#[trigger] s[k]),
    ensures
        forall|k: int|
            0 <= k < sort_pairs_spec(s).len() ==> p(#[trigger] sort_pairs_spec(s)[k]),
    decreases s.len(),
{
    if s.len() > 0 {
        assert(forall|k: int| 0 <= k < s.drop_last().len() ==> p(#[trigger] s.drop_last()[k]));
        lemma_sort_pairs_all(s.drop_last(), p);
        lemma_insert_pair_all(s.last(), sort_pairs_spec(s.drop_last()), p);
    }
}

proof fn lemma_insert_pair_len(x: (ApiCategory, u32), s: Seq<(ApiCategory, u32)>)
    ensures
        insert_pair_desc(x, s).len() == s.len() + 1,
    decreases s.len(),
{
    if s.len() > 0 && s[0].1 >= x.1 {
        lemma_insert_pair_len(x, s.drop_first());
    }
}

proof fn lemma_sort_pairs_len(s: Seq<(ApiCategory, u32)>)
    ensures
        sort_pairs_spec(s).len() == s.len(),
    decreases s.len(),
{
    if s.len() > 0 {
        lemma_sort_pairs_len(s.drop_last());
        lemma_insert_pair_len(s.last(), sort_pairs_spec(s.drop_last()));
    }
}

proof fn lemma_insert_pair_sorted(x: (ApiCategory, u32), s: Seq<(ApiCategory, u32)>)
    requires
        pairs_sorted_desc(s),
    ensures
        pairs_sorted_desc(insert_pair_desc(x, s)),
    decreases s.len(),
{
    if s.len() == 0 {
    } else if s[0].1 >= x.1 {
        assert(pairs_sorted_desc(s.drop_first()));
        lemma_insert_pair_sorted(x, s.drop_first());
        lemma_insert_pair_all(x, s.drop_first(), |e: (ApiCategory, u32)| e.1 <= s[0].1);
        lemma_insert_pair_len(x, s.drop_first());
    } else {
    }
}

proof fn lemma_sort_pairs_sorted(s: Seq<(ApiCategory, u32)>)
    ensures
        pairs_sorted_desc(sort_pairs_spec(s)),
    decreases s.len(),
{
    if s.len() > 0 {
        lemma_sort_pairs_sorted(s.drop_last());
        lemma_insert_pair_sorted(s.last(), sort_pairs_spec(s.drop_last()));
    }
}

proof fn lemma_insert_pair_at(x: (ApiCategory, u32), s: Seq<(ApiCategory, u32)>, pos: int)
    requires
        0 <= pos <= s.len(),
        forall|j: int| 0 <= j < pos ==> s[j].1 >= x.1,
        pos < s.len() ==> s[pos].1 < x.1,
    ensures
        insert_pair_desc(x, s) == s.subrange(0, pos) + seq![x] + s.subrange(pos, s.len() as int),
    decreases s.len(),
{
    if s.len() == 0 {
        assert(insert_pair_desc(x, s) =~= s.subrange(0, pos) + seq![x] + s.subrange(
            pos,
            s.len() as int,
        ));
    } else if pos == 0 {
        assert(insert_pair_desc(x, s) =~= s.subrange(0, pos) + seq![x] + s.subrange(
            pos,
            s.len() as int,
        ));
    } else {
        assert(s[0].1 >= x.1);
        lemma_insert_pair_at(x, s.drop_first(), pos - 1);
        assert(seq![s[0]] + (s.drop_first().subrange(0, pos - 1) + seq![x]
            + s.drop_first().subrange(pos - 1, s.drop_first().len() as int)) =~= s.subrange(0, pos)
            + seq![x] + s.subrange(pos, s.len() as int));
    }
}

fn sort_pairs_desc(ps: Vec<(ApiCategory, u32)>) -> (r: Vec<(ApiCategory, u32)>)
    ensures
        r@ == sort_pairs_spec(ps@),
{
    let ghost orig = ps@;
    let mut ps = ps;
    let mut r: Vec<(ApiCategory, u32)> = Vec::new();
    let n = ps.len();
    let mut i: usize = 0;
    while i < n
        invariant
            n == orig.len(),
            i <= n,
            ps@ == orig.skip(i as int),
            r@ == sort_pairs_spec(orig.take(i as int)),
        decreases n - i,
    {
        proof {
            assert(orig.skip(i as int).len() == n - i);
        }
        let x = ps.remove(0);
        proof {
            assert(orig.skip(i as int).remove(0) =~= orig.skip(i + 1));
            assert(x == orig[i as int]);
            lemma_sort_pairs_len(orig.take(i as int));
        }
        let mut j: usize = 0;
        while j < r.len() && r[j].1 >= x.1
            invariant
                j <= r@.len(),
                forall|k: int| 0 <= k < j ==> r@[k].1 >= x.1,
            decreases r@.len() - j,
        {
            j = j + 1;
        }
        proof {
            lemma_insert_pair_at(x, r@, j as int);
        }
        r.insert(j, x);
        proof {
            let prev = orig.take(i as int);
            assert(r@ =~= sort_pairs_spec(prev).subrange(0, j as int) + seq![x]
                + sort_pairs_spec(prev).subrange(j as int, sort_pairs_spec(prev).len() as int));
            assert(orig.take(i + 1).drop_last() =~= prev);
            assert(orig.take(i + 1).last() == orig[i as int]);
        }
        i = i + 1;
    }
    proof {
        assert(orig.take(n as int) =~= orig);
    }
    r
}

/// Position of each category in the accumulation table.
pub open spec fn cat_index_spec(cat: ApiCategory) -> int {
    match cat {
        ApiCategory::ProcessInjection => 0,
        ApiCategory::CredentialAccess => 1,
        ApiCategory::Persistence => 2,
        ApiCategory::CommandAndControl => 3,
        ApiCategory::Exfiltration => 4,
        ApiCategory::DefenseEvasion => 5,
        ApiCategory::PrivilegeEscalation => 6,
        ApiCategory::Networking => 7,
        ApiCategory::Crypto => 8,
        ApiCategory::Registry => 9,
        ApiCategory::Process => 10,
        ApiCategory::AntiDebug => 11,
        ApiCategory::Other => 12,
    }
}

fn cat_index(cat: ApiCategory) -> (r: usize)
    ensures
        r == cat_index_spec(cat),
        r < 13,
{
    match cat {
        ApiCategory::ProcessInjection => 0,
        ApiCategory::CredentialAccess => 1,
        ApiCategory::Persistence => 2,
        ApiCategory::CommandAndControl => 3,
        ApiCategory::Exfiltration => 4,
        ApiCategory::DefenseEvasion => 5,
        ApiCategory::PrivilegeEscalation => 6,
        ApiCategory::Networking => 7,
        ApiCategory::Crypto => 8,
        ApiCategory::Registry => 9,
        ApiCategory::Process => 10,
        ApiCategory::AntiDebug => 11,
        ApiCategory::Other => 12,
    }
}

fn all_cats_vec() -> (r: Vec<ApiCategory>)
    ensures
        r@ == all_categories(),
{
    let mut r: Vec<ApiCategory> = Vec::new();
    r.push(ApiCategory::ProcessInjection);
    r.push(ApiCategory::CredentialAccess);
    r.push(ApiCategory::Persistence);
    r.push(ApiCategory::CommandAndControl);
    r.push(ApiCategory::Exfiltration);
    r.push(ApiCategory::DefenseEvasion);
    r.push(ApiCategory::PrivilegeEscalation);
    r.push(ApiCategory::Networking);
    r.push(ApiCategory::Crypto);
    r.push(ApiCategory::Registry);
    r.push(ApiCategory::Process);
    r.push(ApiCategory::AntiDebug);
    r.push(ApiCategory::Other);
    proof {
        assert(r@ =~= all_categories());
    }
    r
}

fn clone_strings(v: &Vec<String>) -> (r: Vec<String>)
    ensures
        r@ == v@,
{
    let mut r: Vec<String> = Vec::new();
    let mut i: usize = 0;
    while i < v.len()
        invariant
            i <= v@.len(),
            r@ == v@.take(i as int),
        decreases v@.len() - i,
    {
        r.push(v[i].clone());
        proof {
            assert(v@.take(i + 1) =~= v@.take(i as int).push(v@[i as int]));
        }
        i = i + 1;
    }
    proof {
        assert(v@.take(v@.len() as int) =~= v@);
    }
    r
}

proof fn lemma_suspicious_step(prefix: Seq<ApiImport>, x: ApiImport)
    ensures
        suspicious_of(prefix.push(x)) == if is_suspicious(x) {
            suspicious_of(prefix).push(x)
        } else {
            suspicious_of(prefix)
        },
{
    reveal(Seq::filter);
    assert(prefix.push(x).drop_last() =~= prefix);
    assert(prefix.push(x).last() == x);
}

/// The categories with nonzero totals among a prefix of the category list.
pub open spec fn category_pairs_prefix(imports: Seq<ApiImport>, cats: Seq<ApiCategory>) -> Seq<
    (ApiCategory, u32),
> {
    cats.filter(|c: ApiCategory| category_total(imports, c) > 0).map_values(
        |c: ApiCategory| (c, category_total(imports, c) as u32),
    )
}

proof fn lemma_pairs_step(imports: Seq<ApiImport>, cats: Seq<ApiCategory>, c: ApiCategory)
    ensures
        category_pairs_prefix(imports, cats.push(c)) == if category_total(imports, c) > 0 {
            category_pairs_prefix(imports, cats).push(
                (c, category_total(imports, c) as u32),
            )
        } else {
            category_pairs_prefix(imports, cats)
        },
{
    reveal(Seq::filter);
    let pred = |k: ApiCategory| category_total(imports, k) > 0;
    let f = |k: ApiCategory| (k, category_total(imports, k) as u32);
    assert(cats.push(c).drop_last() =~= cats);
    assert(cats.push(c).last() == c);
    if pred(c) {
        assert(cats.push(c).filter(pred) == cats.filter(pred).push(c));
        assert(cats.filter(pred).push(c).map_values(f) =~= cats.filter(pred).map_values(f).push(
            f(c),
        ));
    } else {
        assert(cats.push(c).filter(pred) == cats.filter(pred));
    }
}

proof fn lemma_pairs_of_empty(imports: Seq<ApiImport>, cats: Seq<ApiCategory>)
    requires
        imports.len() == 0,
    ensures
        category_pairs_prefix(imports, cats).len() == 0,
    decreases cats.len(),
{
    reveal(Seq::filter);
    let pred = |k: ApiCategory| category_total(imports, k) > 0;
    if cats.len() == 0 {
        assert(cats.filter(pred).len() == 0);
    } else {
        lemma_pairs_of_empty(imports, cats.drop_last());
        assert(cats.filter(pred).len() == 0);
    }
}

/// Bounds-like helper: at most the first 50 entries are kept.
pub open spec fn min_int(a: int, b: int) -> int {
    if a < b {
        a
    } else {
        b
    }
}

/// The reported top findings are exactly the stable descending sort of the
/// finding list of `imports`, truncated to 50 entries.
pub open spec fn top_findings_ok(top: Seq<ApiFinding>, imports: Seq<ApiImport>) -> bool {
    exists|fs: Seq<ApiFinding>|
        findings_rel(fs, imports) && top == sort_findings_spec(fs).take(
            min_int(50, fs.len() as int),
        )
}

/// Everything `score` promises of its result: counters, the saturated
/// per-category sums sorted descending, the capped total in 0..=100, its
/// severity label, and the stable descending top-50 finding list.
pub open spec fn analysis_ok(res: ApiAnalysisResult, imports: Seq<ApiImport>) -> bool {
    &&& res.imports_total == imports.len()
    &&& res.is_pe == (imports.len() > 0)
    &&& (res.note is Some <==> imports.len() == 0)
    &&& (imports.len() == 0 ==> res.note->0@ == "No imports extracted"@)
    &&& res.suspicious_total == suspicious_of(imports).len()
    &&& res.total_score == total_score_spec(imports)
    &&& res.total_score <= 100
    &&& res.severity@ == severity_label(res.total_score)
    &&& res.category_scores@ == sort_pairs_spec(category_pairs(imports))
    &&& pairs_sorted_desc(res.category_scores@)
    &&& (forall|k: int|
        0 <= k < res.category_scores@.len() ==> 0 < (#[trigger] res.category_scores@[k]).1 <= 100)
    &&& top_findings_ok(res.top@, imports)
    &&& res.top@.len() == min_int(50, suspicious_of(imports).len() as int)
    &&& findings_sorted_desc(res.top@)
    &&& (forall|k: int| 0 <= k < res.top@.len() ==> (#[trigger] res.top@[k]).score <= 100)
}

/// Scores one file's import table. The result is fully determined by the
/// import list; see [`analysis_ok`] for everything it promises.
pub fn score(imports: &[ApiImport]) -> (res: ApiAnalysisResult)
    ensures
        analysis_ok(res, imports@),
{
    let n = imports.len();
    let mut res = ApiAnalysisResult::default();
    res.imports_total = n;

    if n == 0 {
        res.is_pe = false;
        res.note = Some(String::from_str("No imports extracted"));
        proof {
            reveal(Seq::filter);
            assert(suspicious_of(imports@) =~= Seq::<ApiImport>::empty());
            lemma_pairs_of_empty(imports@, all_categories());
            assert(category_pairs(imports@) =~= Seq::<(ApiCategory, u32)>::empty());
            assert(sort_pairs_spec(category_pairs(imports@)) =~= Seq::<(ApiCategory, u32)>::empty());
            assert(findings_rel(Seq::<ApiFinding>::empty(), imports@));
            assert(sort_findings_spec(Seq::<ApiFinding>::empty()) =~= Seq::<ApiFinding>::empty());
            assert(res.top@ == sort_findings_spec(Seq::<ApiFinding>::empty()).take(
                min_int(50, Seq::<ApiFinding>::empty().len() as int),
            ));
        }
        return res;
    }
    res.is_pe = true;

    let classified = classify_imports(imports);
    let mut cats: Vec<u32> = vec![0u32; 13];
    let mut findings: Vec<ApiFinding> = Vec::new();
    proof {
        assert(imports@.take(0) =~= Seq::<ApiImport>::empty());
        reveal(Seq::filter);
        assert(suspicious_of(imports@.take(0)) =~= Seq::<ApiImport>::empty());
        assert(forall|c: ApiCategory| cats@[#[trigger] cat_index_spec(c)] == 0);
    }
    let mut i: usize = 0;
    while i < n
        invariant
            n == imports@.len(),
            i <= n,
            classified@.len() == n,
            forall|m: int|
                0 <= m < n ==> {
                    let c = #[trigger] classified@[m];
                    let s = classify_spec(imports@[m]);
                    &&& c.api == imports@[m]
                    &&& c.category == s.0
                    &&& c.suspicious == s.1
                    &&& c.reasons.deep_view() == s.2
                },
            cats@.len() == 13,
            forall|c: ApiCategory|
                cats@[#[trigger] cat_index_spec(c)] == category_total(imports@.take(i as int), c),
            findings_rel(findings@, imports@.take(i as int)),
        decreases n - i,
    {
        let ghost prefix = imports@.take(i as int);
        let ghost x = imports@[i as int];
        let c = &classified[i];
        if c.suspicious {
            let base = base_points(c.category);
            let b = bonus_for(&c.api);
            proof {
                assert(base_points_spec(classify_spec(x).0) <= 45);
                assert(bonus_spec(x) <= 20);
            }
            let sum0 = base + b;
            let points = if sum0 > 100 {
                100
            } else {
                sum0
            };
            let idx = cat_index(c.category);
            let cur = cats[idx];
            proof {
                lemma_category_total_bounds(prefix, classify_spec(x).0);
            }
            let t = cur + points;
            let capped = if t > 100 {
                100
            } else {
                t
            };
            cats.set(idx, capped);
            let mut reasons = clone_strings(&c.reasons);
            proof {
                assert(reasons.deep_view() =~= c.reasons.deep_view());
            }
            let ghost dv0 = reasons.deep_view();
            if b > 0 {
                reasons.push(String::from_str("High-signal API"));
                proof {
                    assert(reasons.deep_view() =~= dv0.push("High-signal API"@));
                }
            }
            findings.push(
                ApiFinding { api: c.api.duplicate(), category: c.category, score: points, reasons },
            );
        }
        proof {
            assert(imports@.take(i + 1) =~= prefix.push(x));
            lemma_suspicious_step(prefix, x);
            assert forall|cat: ApiCategory|
                cats@[#[trigger] cat_index_spec(cat)] == category_total(imports@.take(i + 1), cat)
            by {
                lemma_category_total_step(prefix, x, cat);
                assert(forall|a: ApiCategory, bb: ApiCategory|
                    cat_index_spec(a) == cat_index_spec(bb) ==> a == bb);
            }
            assert(findings_rel(findings@, imports@.take(i + 1)));
        }
        i = i + 1;
    }
    proof {
        assert(imports@.take(n as int) =~= imports@);
    }

    res.suspicious_total = findings.len();

    let cat_list = all_cats_vec();
    let mut pairs: Vec<(ApiCategory, u32)> = Vec::new();
    proof {
        assert(all_categories().take(0) =~= Seq::<ApiCategory>::empty());
        reveal(Seq::filter);
        assert(category_pairs_prefix(imports@, all_categories().take(0)) =~= Seq::<
            (ApiCategory, u32),
        >::empty());
    }
    let mut k: usize = 0;
    while k < 13
        invariant
            k <= 13,
            cat_list@ == all_categories(),
            cats@.len() == 13,
            forall|c: ApiCategory|
                cats@[#[trigger] cat_index_spec(c)] == category_total(imports@, c),
            pairs@ == category_pairs_prefix(imports@, all_categories().take(k as int)),
            forall|m: int| 0 <= m < pairs@.len() ==> 0 < (#[trigger] pairs@[m]).1 <= 100,
        decreases 13 - k,
    {
        let c = cat_list[k];
        let idx = cat_index(c);
        let v = cats[idx];
        proof {
            lemma_category_total_bounds(imports@, c);
        }
        if v > 0 {
            pairs.push((c, v));
        }
        proof {
            assert(all_categories().take(k + 1) =~= all_categories().take(k as int).push(c));
            lemma_pairs_step(imports@, all_categories().take(k as int), c);
        }
        k = k + 1;
    }
    proof {
        assert(all_categories().take(13) =~= all_categories());
        assert(pairs@ == category_pairs(imports@));
    }

    let ghost pairs_view = pairs@;
    let mut total: u32 = 0;
    let np = pairs.len();
    let mut m: usize = 0;
    while m < np
        invariant
            np == pairs@.len() <= 13,
            m <= np,
            pairs@ == pairs_view,
            forall|q: int| 0 <= q < pairs@.len() ==> 0 < (#[trigger] pairs@[q]).1 <= 100,
            total == sum_pair_values(pairs@.take(m as int)),
            total <= 100 * m,
        decreases np - m,
    {
        proof {
            assert(pairs@.take(m + 1).drop_last() =~= pairs@.take(m as int));
            assert(pairs@.take(m + 1).last() == pairs@[m as int]);
        }
        total = total + pairs[m].1;
        m = m + 1;
    }
    proof {
        assert(pairs@.take(np as int) =~= pairs@);
    }
    let total_capped = if total > 100 {
        100
    } else {
        total
    };

    res.total_score = total_capped;
    res.severity = sev_from_score(total_capped);
    res.category_scores = sort_pairs_desc(pairs);
    proof {
        lemma_sort_pairs_sorted(pairs_view);
        lemma_sort_pairs_all(pairs_view, |e: (ApiCategory, u32)| 0 < e.1 <= 100);
    }

    let ghost fs0 = findings@;
    proof {
        assert(forall|q: int|
            0 <= q < fs0.len() ==> (#[trigger] fs0[q]).score <= 100);
        lemma_sort_findings_sorted(fs0);
        lemma_sort_findings_all(fs0, |f: ApiFinding| f.score <= 100);
        lemma_sort_findings_len(fs0);
    }
    let mut top = sort_findings_desc(findings);
    top.truncate(50);
    proof {
        assert(top@ =~= sort_findings_spec(fs0).take(min_int(50, fs0.len() as int)));
    }
    res.top = top;
    proof {
        assert(findings_rel(fs0, imports@));
        assert(top_findings_ok(res.top@, imports@));
    }

    res
}

} // verus!
