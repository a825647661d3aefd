//! Data model of the scan pipeline: catalog entries, detection results,
//! save-path matches, and scan options.
//!
//! Paths are plain strings; probing them is the caller's business, so the
//! pipeline itself stays free of filesystem access.

use vstd::prelude::*;
use crate::score::Score;

verus! {

/// The canonical footprint of one game in the reference catalog.
#[derive(Debug, Clone)]
pub struct GameInfo {
    pub name: String,
    pub aliases: Vec<String>,
    pub pcgw_id: Option<String>,
    pub install_rules: Vec<InstallPathRule>,
    pub save_rules: Vec<SavePathRule>,
}

/// A rule describing where a game may be installed.
#[derive(Debug, Clone)]
pub struct InstallPathRule {
    pub id: String,
    pub description: Option<String>,
    pub patterns: Vec<String>,
    pub registry_keys: Option<Vec<String>>,
}

/// A templated, platform-tagged, confidence-weighted description of one
/// plausible save location.
#[derive(Debug, Clone)]
pub struct SavePathRule {
    pub id: String,
    pub description: Option<String>,
    pub path_template: String,
    pub requires: Option<Vec<String>>,
    pub platforms: Vec<String>,
    pub confidence: Score,
}

/// The mathematical content of an install rule.
pub struct InstallRuleView {
    pub id: Seq<char>,
    pub description: Option<Seq<char>>,
    pub patterns: Seq<Seq<char>>,
    pub registry_keys: Option<Seq<Seq<char>>>,
}

impl View for InstallPathRule {
    type V = InstallRuleView;

    open spec fn view(&self) -> InstallRuleView {
        InstallRuleView {
            id: self.id@,
            description: self.description.deep_view(),
            patterns: self.patterns.deep_view(),
            registry_keys: self.registry_keys.deep_view(),
        }
    }
}

impl DeepView for InstallPathRule {
    type V = InstallRuleView;

    open spec fn deep_view(&self) -> InstallRuleView {
        self.view()
    }
}

/// The mathematical content of a save rule.
pub struct SaveRuleView {
    pub id: Seq<char>,
    pub description: Option<Seq<char>>,
    pub path_template: Seq<char>,
    pub requires: Option<Seq<Seq<char>>>,
    pub platforms: Seq<Seq<char>>,
    pub confidence: Score,
}

impl View for SavePathRule {
    type V = SaveRuleView;

    open spec fn view(&self) -> SaveRuleView {
        SaveRuleView {
            id: self.id@,
            description: self.description.deep_view(),
            path_template: self.path_template@,
            requires: self.requires.deep_view(),
            platforms: self.platforms.deep_view(),
            confidence: self.confidence,
        }
    }
}

impl DeepView for SavePathRule {
    type V = SaveRuleView;

    open spec fn deep_view(&self) -> SaveRuleView {
        self.view()
    }
}

/// The mathematical content of a catalog entry.
pub struct GameInfoView {
    pub name: Seq<char>,
    pub aliases: Seq<Seq<char>>,
    pub pcgw_id: Option<Seq<char>>,
    pub install_rules: Seq<InstallRuleView>,
    pub save_rules: Seq<SaveRuleView>,
}

impl View for GameInfo {
    type V = GameInfoView;

    open spec fn view(&self) -> GameInfoView {
        GameInfoView {
            name: self.name@,
            aliases: self.aliases.deep_view(),
            pcgw_id: self.pcgw_id.deep_view(),
            install_rules: self.install_rules.deep_view(),
            save_rules: self.save_rules.deep_view(),
        }
    }
}

impl DeepView for GameInfo {
    type V = GameInfoView;

    open spec fn deep_view(&self) -> GameInfoView {
        self.view()
    }
}

/// Copies a string vector, preserving its view.
pub fn copy_strings(v: &Vec<String>) -> (r: Vec<String>)
    ensures
        r@ == v@,
{
    let mut out: Vec<String> = Vec::new();
    let mut i: usize = 0;
    while i < v.len()
        invariant
            i <= v@.len(),
            out@ == v@.take(i as int),
        decreases v@.len() - i,
    {
        out.push(v[i].clone());
        i = i + 1;
        proof {
            assert(out@ =~= v@.take(i as int));
        }
    }
    proof {
        assert(v@.take(v@.len() as int) =~= v@);
    }
    out
}

/// Copies an optional string, preserving its value exactly.
pub fn copy_opt_string(v: &Option<String>) -> (r: Option<String>)
    ensures
        r == *v,
{
    match v {
        Some(s) => Some(s.clone()),
        None => None,
    }
}

/// Copies an optional string vector, preserving its deep view.
pub fn copy_opt_strings(v: &Option<Vec<String>>) -> (r: Option<Vec<String>>)
    ensures
        r.deep_view() == v.deep_view(),
{
    match v {
        Some(s) => {
            let c = copy_strings(s);
            proof {
                assert(c.deep_view() == s.deep_view());
            }
            Some(c)
        },
        None => None,
    }
}

impl InstallPathRule {
    /// A copy of the rule with the same view.
    pub fn duplicate(&self) -> (r: InstallPathRule)
        ensures
            r@ == self@,
    {
        let r = InstallPathRule {
            id: self.id.clone(),
            description: copy_opt_string(&self.description),
            patterns: copy_strings(&self.patterns),
            registry_keys: copy_opt_strings(&self.registry_keys),
        };
        proof {
            assert(r.patterns.deep_view() == self.patterns.deep_view());
        }
        r
    }
}

impl SavePathRule {
    /// A copy of the rule with the same view.
    pub fn duplicate(&self) -> (r: SavePathRule)
        ensures
            r@ == self@,
    {
        let r = SavePathRule {
            id: self.id.clone(),
            description: copy_opt_string(&self.description),
            path_template: self.path_template.clone(),
            requires: copy_opt_strings(&self.requires),
            platforms: copy_strings(&self.platforms),
            confidence: self.confidence,
        };
        proof {
            assert(r.platforms.deep_view() == self.platforms.deep_view());
        }
        r
    }
}

/// Copies a vector of install rules, preserving its deep view.
fn copy_install_rules(v: &Vec<InstallPathRule>) -> (r: Vec<InstallPathRule>)
    ensures
        r.deep_view() == v.deep_view(),
{
    let mut out: Vec<InstallPathRule> = Vec::new();
    let mut i: usize = 0;
    while i < v.len()
        invariant
            i <= v@.len(),
            out@.len() == i,
            forall|k: int| 0 <= k < i ==> out@[k]@ == v@[k]@,
        decreases v@.len() - i,
    {
        out.push(v[i].duplicate());
        i = i + 1;
    }
    proof {
        assert forall|k: int| 0 <= k < out.deep_view().len() implies out.deep_view()[k]
            == v.deep_view()[k] by {
            assert(out.deep_view()[k] == out@[k]@);
            assert(v.deep_view()[k] == v@[k]@);
        }
        assert(out.deep_view() =~= v.deep_view());
    }
    out
}

/// Copies a vector of save rules, preserving its deep view.
fn copy_save_rules(v: &Vec<SavePathRule>) -> (r: Vec<SavePathRule>)
    ensures
        r.deep_view() == v.deep_view(),
{
    let mut out: Vec<SavePathRule> = Vec::new();
    let mut i: usize = 0;
    while i < v.len()
        invariant
            i <= v@.len(),
            out@.len() == i,
            forall|k: int| 0 <= k < i ==> out@[k]@ == v@[k]@,
        decreases v@.len() - i,
    {
        out.push(v[i].duplicate());
        i = i + 1;
    }
    proof {
        assert forall|k: int| 0 <= k < out.deep_view().len() implies out.deep_view()[k]
            == v.deep_view()[k] by {
            assert(out.deep_view()[k] == out@[k]@);
            assert(v.deep_view()[k] == v@[k]@);
        }
        assert(out.deep_view() =~= v.deep_view());
    }
    out
}

impl GameInfo {
    /// A copy of the entry with the same view.
    pub fn duplicate(&self) -> (r: GameInfo)
        ensures
            r@ == self@,
    {
        let r = GameInfo {
            name: self.name.clone(),
            aliases: copy_strings(&self.aliases),
            pcgw_id: copy_opt_string(&self.pcgw_id),
            install_rules: copy_install_rules(&self.install_rules),
            save_rules: copy_save_rules(&self.save_rules),
        };
        proof {
            assert(r.aliases.deep_view() == self.aliases.deep_view());
        }
        r
    }
}

/// The reference catalog: a version tag and its entries.
#[derive(Debug, Clone)]
pub struct Catalog {
    pub version: String,
    pub entries: Vec<GameInfo>,
}

/// Options for a catalog query.
#[derive(Debug, Clone)]
pub struct PcgwQueryOptions {
    pub fuzzy: bool,
    pub platform: Option<String>,
    pub limit: Option<usize>,
}

/// One ranked catalog query result.
#[derive(Debug, Clone)]
pub struct PcgwQueryItem {
    pub info: GameInfo,
    pub score: Score,
    pub matched_by: String,
}

/// Version and size of a loaded catalog.
#[derive(Debug, Clone)]
pub struct PcgwIndexMeta {
    pub version: Option<String>,
    pub count: usize,
}

/// Which sources a scan should consult.
#[derive(Debug, Clone)]
pub struct ScanOptions {
    pub platform: String,
    pub search_steam: bool,
    pub search_epic: bool,
    pub search_origin: bool,
    pub search_registry: bool,
    pub search_common_dirs: bool,
    pub search_processes: bool,
}

/// Which mechanism reported an installation.
#[derive(Debug, Clone, Copy, PartialEq, Eq, Structural)]
pub enum DetectionSource {
    Steam,
    Epic,
    Origin,
    Registry,
    CommonDir,
    Process,
    Manual,
}

/// One scan observation: a game, where it was seen, and by which source.
#[derive(Debug, Clone)]
pub struct DetectedGame {
    pub info: GameInfo,
    pub install_path: Option<String>,
    pub source: DetectionSource,
}

/// The outcome of resolving one save rule against one candidate.
#[derive(Debug, Clone)]
pub struct SaveMatchResult {
    pub rule_id: String,
    pub resolved_path: String,
    pub exists: bool,
    pub confidence: Score,
}

/// The mathematical content of one detection.
pub struct DetectedGameView {
    pub info: GameInfoView,
    pub install_path: Option<Seq<char>>,
    pub source: DetectionSource,
}

impl View for DetectedGame {
    type V = DetectedGameView;

    open spec fn view(&self) -> DetectedGameView {
        DetectedGameView {
            info: self.info@,
            install_path: self.install_path.deep_view(),
            source: self.source,
        }
    }
}

impl DeepView for DetectedGame {
    type V = DetectedGameView;

    open spec fn deep_view(&self) -> DetectedGameView {
        self.view()
    }
}

impl DetectedGame {
    /// A copy of the detection with the same view.
    pub fn duplicate(&self) -> (r: DetectedGame)
        ensures
            r@ == self@,
    {
        DetectedGame {
            info: self.info.duplicate(),
            install_path: copy_opt_string(&self.install_path),
            source: self.source,
        }
    }
}

/// The mathematical content of one save-path match.
pub struct SaveMatchResultView {
    pub rule_id: Seq<char>,
    pub resolved_path: Seq<char>,
    pub exists: bool,
    pub confidence: Score,
}

impl View for SaveMatchResult {
    type V = SaveMatchResultView;

    open spec fn view(&self) -> SaveMatchResultView {
        SaveMatchResultView {
            rule_id: self.rule_id@,
            resolved_path: self.resolved_path@,
            exists: self.exists,
            confidence: self.confidence,
        }
    }
}

impl DeepView for SaveMatchResult {
    type V = SaveMatchResultView;

    open spec fn deep_view(&self) -> SaveMatchResultView {
        self.view()
    }
}

impl SaveMatchResult {
    /// A copy of the match with the same view.
    pub fn duplicate(&self) -> (r: SaveMatchResult)
        ensures
            r@ == self@,
    {
        SaveMatchResult {
            rule_id: self.rule_id.clone(),
            resolved_path: self.resolved_path.clone(),
            exists: self.exists,
            confidence: self.confidence,
        }
    }
}

/// A progress event for one named stage of a scan.
#[derive(Debug, Clone)]
pub struct ScanProgressEvent {
    pub step: String,
    pub current: u32,
    pub total: u32,
    pub message: Option<String>,
}

/// The progress event as delivered to the host's event bus.
#[derive(Debug, Clone)]
pub struct ScanProgress(pub ScanProgressEvent);

/// The aggregate outcome of one scan.
#[derive(Debug, Clone)]
pub struct ScanResult {
    pub detected: Vec<DetectedGame>,
    pub matches: Vec<SaveMatchResult>,
    pub errors: Vec<String>,
}

} // verus!
