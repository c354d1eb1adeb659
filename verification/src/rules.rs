//! Planning of a rule-set update: which repository a source comes from,
//! where it is kept, where its combined output goes, and the license gate
//! for the Elastic artifacts. The cloning and file I/O live outside; the
//! decisions live here.

use vstd::prelude::*;

verus! {

/// A supported origin of detection rules.
#[derive(Debug, Clone)]
pub enum RuleSource {
    YaraRulesCommunity,
    ElasticProtectionsArtifacts,
    HayabusaRules,
}

/// Configuration of one rules update.
#[derive(Debug, Clone)]
pub struct UpdateOptions {
    pub rules_dir: String,
    pub accept_elastic_elv2: bool,
}

/// What an update reports back.
#[derive(Debug, Clone)]
pub struct RulesUpdateResult {
    pub source_name: String,
    pub repo_url: String,
    pub head_commit: String,
    pub combined_rules_path: String,
}

/// The fixed decisions of one update: the source's short name, its
/// repository URL, the checkout folder and the combined-output path, both
/// relative to the rules directory, and whether the output is only a marker
/// (Sigma rule trees are not combined into one file).
#[derive(Debug, Clone)]
pub struct UpdatePlan {
    pub source_name: String,
    pub repo_url: String,
    pub dest_folder: String,
    pub combined_out: String,
    pub marker_only: bool,
}

fn join_path(base: &str, rel: &str) -> (r: String)
    ensures
        r@ == base@ + "/"@ + rel@,
{
    let mut out = String::from_str(base);
    out.append("/");
    out.append(rel);
    out
}

/// Decides everything about one update from its source and options. The
/// Elastic artifacts are refused unless their license was accepted; every
/// other choice is a fixed table.
pub fn plan_update(source: &RuleSource, opts: &UpdateOptions) -> (r: Result<UpdatePlan, String>)
    ensures
        r is Err <==> (source is ElasticProtectionsArtifacts && !opts.accept_elastic_elv2),
        r is Err ==> r->Err_0@
            == "Elastic rules require --accept-elastic-license-2-0 (ELv2). You must explicitly accept the license to download these rules."@,
        r is Ok ==> {
            let p = r->Ok_0;
            match source {
                RuleSource::YaraRulesCommunity => {
                    &&& p.source_name@ == "community"@
                    &&& p.repo_url@ == "https://github.com/Yara-Rules/rules.git"@
                    &&& p.dest_folder@ == opts.rules_dir@ + "/"@ + "repos/yara-rules-community"@
                    &&& p.combined_out@ == opts.rules_dir@ + "/"@
                        + "compiled/community_combined.yar"@
                    &&& !p.marker_only
                },
                RuleSource::ElasticProtectionsArtifacts => {
                    &&& p.source_name@ == "elastic"@
                    &&& p.repo_url@ == "https://github.com/elastic/protections-artifacts.git"@
                    &&& p.dest_folder@ == opts.rules_dir@ + "/"@
                        + "repos/elastic-protections-artifacts"@
                    &&& p.combined_out@ == opts.rules_dir@ + "/"@ + "compiled/elastic_combined.yar"@
                    &&& !p.marker_only
                },
                RuleSource::HayabusaRules => {
                    &&& p.source_name@ == "hayabusa"@
                    &&& p.repo_url@ == "https://github.com/Yamato-Security/hayabusa-rules.git"@
                    &&& p.dest_folder@ == opts.rules_dir@ + "/"@ + "repos/hayabusa-rules"@
                    &&& p.combined_out@ == opts.rules_dir@ + "/"@
                        + "sigma_compiled/hayabusa_rules_dir.marker"@
                    &&& p.marker_only
                },
            }
        },
{
    match source {
        RuleSource::YaraRulesCommunity => Ok(
            UpdatePlan {
                source_name: String::from_str("community"),
                repo_url: String::from_str("https://github.com/Yara-Rules/rules.git"),
                dest_folder: join_path(opts.rules_dir.as_str(), "repos/yara-rules-community"),
                combined_out: join_path(opts.rules_dir.as_str(), "compiled/community_combined.yar"),
                marker_only: false,
            },
        ),
        RuleSource::ElasticProtectionsArtifacts => {
            if !opts.accept_elastic_elv2 {
                return Err(
                    String::from_str(
                        "Elastic rules require --accept-elastic-license-2-0 (ELv2). You must explicitly accept the license to download these rules.",
                    ),
                );
            }
            Ok(
                UpdatePlan {
                    source_name: String::from_str("elastic"),
                    repo_url: String::from_str(
                        "https://github.com/elastic/protections-artifacts.git",
                    ),
                    dest_folder: join_path(
                        opts.rules_dir.as_str(),
                        "repos/elastic-protections-artifacts",
                    ),
                    combined_out: join_path(
                        opts.rules_dir.as_str(),
                        "compiled/elastic_combined.yar",
                    ),
                    marker_only: false,
                },
            )
        },
        RuleSource::HayabusaRules => Ok(
            UpdatePlan {
                source_name: String::from_str("hayabusa"),
                repo_url: String::from_str("https://github.com/Yamato-Security/hayabusa-rules.git"),
                dest_folder: join_path(opts.rules_dir.as_str(), "repos/hayabusa-rules"),
                combined_out: join_path(
                    opts.rules_dir.as_str(),
                    "sigma_compiled/hayabusa_rules_dir.marker",
                ),
                marker_only: true,
            },
        ),
    }
}

/// Whether a file-name extension names a rules file.
pub fn is_yara_ext(ext: &str) -> (r: bool)
    ensures
        r == (crate::text::lower_seq(ext@) == "yar"@ || crate::text::lower_seq(ext@) == "yara"@),
{
    let lower = crate::text::ascii_lower(ext);
    let yar = String::from_str("yar");
    let yara = String::from_str("yara");
    lower == yar || lower == yara
}

/// Takes the short form of a commit id: its first twelve characters.
pub fn short_commit(full: &str) -> (r: String)
    ensures
        r@ == full@.take(if full@.len() < 12 {
            full@.len() as int
        } else {
            12
        }),
{
    let n = full.unicode_len();
    let take: usize = if n < 12 {
        n
    } else {
        12
    };
    let mut out = String::new();
    let mut i: usize = 0;
    while i < take
        invariant
            take <= full@.len(),
            i <= take,
            out@ == full@.take(take as int).take(i as int),
        decreases take - i,
    {
        let c = full.get_char(i);
        out.push(c);
        proof {
            assert(full@.take(take as int).take(i + 1) =~= full@.take(take as int).take(
                i as int,
            ).push(full@[i as int]));
        }
        i = i + 1;
    }
    proof {
        assert(full@.take(take as int).take(take as int) =~= full@.take(take as int));
    }
    out
}

} // verus!
