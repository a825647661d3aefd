//! The save-path matcher: resolves a game's save rules, scores each
//! candidate by existence, and offers the two fallback heuristics'
//! decisions.
//!
//! Existence is probed by the caller; this module fixes what a probe
//! outcome means: a rule's declared confidence when the path exists, and
//! exactly half of it when it does not — down-weighted, not discarded.

use vstd::prelude::*;
use vstd::string::StringExecFns;
use crate::resolver::ResolverCtx;
use crate::resolver::ResolverEnv;
use crate::score::Score;
use crate::score::is_half_of;
use crate::strutil::contains_chars;
use crate::strutil::contains_seq;
use crate::strutil::lower_char;
use crate::strutil::lower_seq;
use crate::strutil::to_chars;
use crate::types::GameInfo;
use crate::types::SaveMatchResult;

verus! {

/// One rule resolved to a concrete candidate path.
#[derive(Debug, Clone)]
pub struct ResolvedRule {
    pub rule_id: String,
    pub path: String,
    pub confidence: Score,
}

/// The candidates a rule list yields, in rule order: each rule whose
/// template resolves contributes exactly one entry (identifier, resolved
/// path, declared confidence); a rule whose template fails to resolve
/// loses only its own entry.
pub open spec fn resolved_list(
    rules: Seq<crate::types::SaveRuleView>,
    vars: Seq<(String, String)>,
    root: Seq<char>,
    ctx: ResolverCtx,
) -> Seq<(Seq<char>, Seq<char>, Score)>
    decreases rules.len(),
{
    if rules.len() == 0 {
        Seq::empty()
    } else {
        let pre = resolved_list(rules.drop_last(), vars, root, ctx);
        let rule = rules.last();
        match crate::resolver::resolve_spec(
            crate::resolver::apply_env(rule.path_template, vars),
            None,
            root,
            ctx,
        ) {
            Ok(p) => pre.push((rule.id, p, rule.confidence)),
            Err(_) => pre,
        }
    }
}

/// Resolves every save rule of a game against the environment and
/// context. The result is exactly `resolved_list` of the game's rules:
/// one candidate per resolvable rule, in rule order, so one rule's
/// failure removes only that rule's candidate, never the whole set.
pub fn resolve_save_rules(
    game: &GameInfo,
    env: &ResolverEnv,
    config: &crate::config::Config,
    ctx: &ResolverCtx,
) -> (r: Vec<ResolvedRule>)
    ensures
        ({
            let spec_r = resolved_list(
                game.save_rules.deep_view(),
                env.variables@,
                config.backup_path@,
                *ctx,
            );
            &&& r@.len() == spec_r.len()
            &&& forall|k: int|
                0 <= k < r@.len() ==> {
                    &&& (#[trigger] r@[k]).rule_id@ == spec_r[k].0
                    &&& r@[k].path@ == spec_r[k].1
                    &&& r@[k].confidence == spec_r[k].2
                }
        }),
{
    let ghost rules = game.save_rules.deep_view();
    let ghost vars = env.variables@;
    let ghost root = config.backup_path@;
    let mut out: Vec<ResolvedRule> = Vec::new();
    let mut j: usize = 0;
    proof {
        assert(rules.take(0) =~= Seq::<crate::types::SaveRuleView>::empty());
    }
    while j < game.save_rules.len()
        invariant
            rules == game.save_rules.deep_view(),
            rules.len() == game.save_rules@.len(),
            vars == env.variables@,
            root == config.backup_path@,
            j <= game.save_rules@.len(),
            out@.len() == resolved_list(rules.take(j as int), vars, root, *ctx).len(),
            forall|k: int|
                0 <= k < out@.len() ==> {
                    &&& (#[trigger] out@[k]).rule_id@ == resolved_list(
                        rules.take(j as int),
                        vars,
                        root,
                        *ctx,
                    )[k].0
                    &&& out@[k].path@ == resolved_list(rules.take(j as int), vars, root, *ctx)[k].1
                    &&& out@[k].confidence == resolved_list(
                        rules.take(j as int),
                        vars,
                        root,
                        *ctx,
                    )[k].2
                },
        decreases game.save_rules@.len() - j,
    {
        let ghost pre_list = resolved_list(rules.take(j as int), vars, root, *ctx);
        proof {
            assert(rules.take(j + 1).drop_last() =~= rules.take(j as int));
            assert(rules.take(j + 1).last() == rules[j as int]);
            assert(rules[j as int] == game.save_rules@[j as int]@);
        }
        let rule = &game.save_rules[j];
        match crate::resolver::resolve_template(rule.path_template.as_str(), env, config, ctx) {
            Ok(p) => {
                let item = ResolvedRule {
                    rule_id: rule.id.clone(),
                    path: p,
                    confidence: rule.confidence,
                };
                out.push(item);
                proof {
                    assert(resolved_list(rules.take(j + 1), vars, root, *ctx) == pre_list.push(
                        (rules[j as int].id, out@[out@.len() - 1].path@, rules[j as int].confidence),
                    ));
                }
            },
            Err(_) => {
                proof {
                    assert(resolved_list(rules.take(j + 1), vars, root, *ctx) == pre_list);
                }
            },
        }
        j = j + 1;
    }
    proof {
        assert(rules.take(rules.len() as int) =~= rules);
    }
    out
}

/// Scores one resolved rule by its probe outcome: the rule's confidence
/// when the path exists, and exactly half of it when it does not.
pub fn score_match(item: &ResolvedRule, exists: bool) -> (r: SaveMatchResult)
    requires
        item.confidence.valid(),
        item.confidence.num <= item.confidence.den,
        item.confidence.den <= u64::MAX / 2,
    ensures
        r@.rule_id == item.rule_id@,
        r@.resolved_path == item.path@,
        r.exists == exists,
        exists ==> r.confidence == item.confidence,
        !exists ==> is_half_of(r.confidence, item.confidence) && r.confidence.valid(),
{
    let confidence = if exists {
        item.confidence
    } else {
        let h = item.confidence.halved();
        proof {
            crate::score::lemma_halved_is_half(item.confidence, h);
        }
        h
    };
    SaveMatchResult {
        rule_id: item.rule_id.clone(),
        resolved_path: item.path.clone(),
        exists,
        confidence,
    }
}

/// Scores every resolved rule by its probe outcome, pointwise.
pub fn score_matches(items: &Vec<ResolvedRule>, probed: &Vec<bool>) -> (r: Vec<SaveMatchResult>)
    requires
        items@.len() == probed@.len(),
        forall|k: int|
            0 <= k < items@.len() ==> {
                &&& (#[trigger] items@[k]).confidence.valid()
                &&& items@[k].confidence.num <= items@[k].confidence.den
                &&& items@[k].confidence.den <= u64::MAX / 2
            },
    ensures
        r@.len() == items@.len(),
        forall|k: int|
            0 <= k < r@.len() ==> {
                &&& (#[trigger] r@[k])@.rule_id == items@[k].rule_id@
                &&& r@[k]@.resolved_path == items@[k].path@
                &&& r@[k].exists == probed@[k]
                &&& (probed@[k] ==> r@[k].confidence == items@[k].confidence)
                &&& (!probed@[k] ==> is_half_of(r@[k].confidence, items@[k].confidence))
            },
{
    let mut out: Vec<SaveMatchResult> = Vec::new();
    let mut i: usize = 0;
    while i < items.len()
        invariant
            items@.len() == probed@.len(),
            forall|k: int|
                0 <= k < items@.len() ==> {
                    &&& (#[trigger] items@[k]).confidence.valid()
                    &&& items@[k].confidence.num <= items@[k].confidence.den
                    &&& items@[k].confidence.den <= u64::MAX / 2
                },
            i <= items@.len(),
            out@.len() == i,
            forall|k: int|
                0 <= k < i ==> {
                    &&& (#[trigger] out@[k])@.rule_id == items@[k].rule_id@
                    &&& out@[k]@.resolved_path == items@[k].path@
                    &&& out@[k].exists == probed@[k]
                    &&& (probed@[k] ==> out@[k].confidence == items@[k].confidence)
                    &&& (!probed@[k] ==> is_half_of(out@[k].confidence, items@[k].confidence))
                },
        decreases items@.len() - i,
    {
        let m = score_match(&items[i], probed[i]);
        out.push(m);
        i = i + 1;
    }
    out
}

// ------------------------------------------------------------------
// The fallback heuristics' decisions.
// ------------------------------------------------------------------

/// A directory's immediate contents, by name only.
#[derive(Debug, Clone)]
pub struct DirListing {
    pub files: Vec<String>,
    pub dirs: Vec<String>,
}

/// A file name carrying a save-like extension.
pub open spec fn has_save_ext(name: Seq<char>) -> bool {
    let l = lower_seq(name);
    ||| (l.len() > 4 && l.skip(l.len() - 4) == ".sav"@)
    ||| (l.len() > 5 && l.skip(l.len() - 5) == ".save"@)
    ||| (l.len() > 5 && l.skip(l.len() - 5) == ".slot"@)
    ||| (l.len() > 4 && l.skip(l.len() - 4) == ".dat"@)
}

/// Whether a file name carries a save-like extension.
pub fn is_save_file_name(name: &str) -> (r: bool)
    ensures
        r == has_save_ext(name@),
{
    let chars = to_chars(name);
    let l = crate::strutil::to_lower(&chars);
    proof {
        reveal_strlit(".sav");
        reveal_strlit(".save");
        reveal_strlit(".slot");
        reveal_strlit(".dat");
    }
    let r = check_suffix(&l, ".sav") || check_suffix(&l, ".save") || check_suffix(&l, ".slot")
        || check_suffix(&l, ".dat");
    r
}

/// Whether `v` ends with the (non-empty) suffix and is strictly longer.
fn check_suffix(v: &Vec<char>, suffix: &str) -> (r: bool)
    ensures
        r == (v@.len() > suffix@.len() && v@.skip(v@.len() - suffix@.len()) == suffix@),
{
    let m: usize = suffix.unicode_len();
    if v.len() <= m {
        return false;
    }
    let mut i: usize = 0;
    while i < m
        invariant
            m == suffix@.len(),
            v@.len() > m,
            i <= m,
            forall|k: int| 0 <= k < i ==> v@[v@.len() - m + k] == suffix@[k],
        decreases m - i,
    {
        if v[v.len() - m + i] != suffix.get_char(i) {
            proof {
                assert(v@.skip(v@.len() - m)[i as int] == v@[v@.len() - m + i]);
            }
            return false;
        }
        i = i + 1;
    }
    proof {
        assert(v@.skip(v@.len() - m) =~= suffix@);
    }
    true
}

/// A directory that looks like it holds saves: a file with a save-like
/// extension, or a subdirectory whose name contains "save".
pub open spec fn plausible_listing(files: Seq<Seq<char>>, dirs: Seq<Seq<char>>) -> bool {
    ||| (exists|i: int| 0 <= i < files.len() && has_save_ext(#[trigger] files[i]))
    ||| (exists|i: int|
        0 <= i < dirs.len() && contains_seq(lower_seq(#[trigger] dirs[i]), "save"@))
}

/// Decides whether a directory looks like it holds saves.
pub fn is_plausible_save_dir(listing: &DirListing) -> (r: bool)
    ensures
        r == plausible_listing(listing.files.deep_view(), listing.dirs.deep_view()),
{
    let ghost fv = listing.files.deep_view();
    let ghost dv = listing.dirs.deep_view();
    let mut i: usize = 0;
    while i < listing.files.len()
        invariant
            fv == listing.files.deep_view(),
            fv.len() == listing.files@.len(),
            i <= fv.len(),
            forall|k: int| 0 <= k < i ==> !has_save_ext(#[trigger] fv[k]),
        decreases fv.len() - i,
    {
        proof {
            assert(fv[i as int] == listing.files@[i as int]@);
        }
        if is_save_file_name(listing.files[i].as_str()) {
            return true;
        }
        i = i + 1;
    }
    let save_pat = to_chars("save");
    let mut j: usize = 0;
    while j < listing.dirs.len()
        invariant
            fv == listing.files.deep_view(),
            dv == listing.dirs.deep_view(),
            dv.len() == listing.dirs@.len(),
            save_pat@ == "save"@,
            forall|k: int| 0 <= k < fv.len() ==> !has_save_ext(#[trigger] fv[k]),
            j <= dv.len(),
            forall|k: int|
                0 <= k < j ==> !contains_seq(lower_seq(#[trigger] dv[k]), "save"@),
        decreases dv.len() - j,
    {
        proof {
            assert(dv[j as int] == listing.dirs@[j as int]@);
        }
        let dc = to_chars(listing.dirs[j].as_str());
        let dl = crate::strutil::to_lower(&dc);
        if contains_chars(&dl, &save_pat) {
            return true;
        }
        j = j + 1;
    }
    false
}

/// A name normalized for heuristic token matching: lower-cased, with
/// spaces, colons and underscores removed.
pub open spec fn norm_token(s: Seq<char>) -> Seq<char>
    decreases s.len(),
{
    if s.len() == 0 {
        Seq::empty()
    } else {
        let pre = norm_token(s.drop_last());
        let c = lower_char(s.last());
        if c == ' ' || c == ':' || c == '_' {
            pre
        } else {
            pre.push(c)
        }
    }
}

/// Computes the heuristic token normalization.
pub fn norm_token_exec(v: &Vec<char>) -> (r: Vec<char>)
    ensures
        r@ == norm_token(v@),
{
    let mut out: Vec<char> = Vec::new();
    let mut i: usize = 0;
    proof {
        assert(v@.take(0) =~= Seq::<char>::empty());
    }
    while i < v.len()
        invariant
            i <= v@.len(),
            out@ == norm_token(v@.take(i as int)),
        decreases v@.len() - i,
    {
        proof {
            assert(v@.take(i + 1).drop_last() =~= v@.take(i as int));
            assert(v@.take(i + 1).last() == v@[i as int]);
        }
        let c = crate::strutil::to_lower_char(v[i]);
        if !(c == ' ' || c == ':' || c == '_') {
            out.push(c);
        }
        i = i + 1;
    }
    proof {
        assert(v@.take(v@.len() as int) =~= v@);
    }
    out
}

/// Whether the game's normalized name or any normalized alias contains
/// the given token.
pub open spec fn game_has_token(g: GameInfo, token: Seq<char>) -> bool {
    ||| contains_seq(norm_token(g.name@), token)
    ||| (exists|i: int|
        0 <= i < g.aliases@.len() && contains_seq(norm_token(#[trigger] g.aliases@[i]@), token))
}

/// Decides whether the game's name or an alias contains the token after
/// normalization; the install-relative heuristic recognizes its special
/// cases this way.
pub fn game_matches_token(g: &GameInfo, token: &str) -> (r: bool)
    ensures
        r == game_has_token(*g, token@),
{
    let tok = to_chars(token);
    let nc = to_chars(g.name.as_str());
    let nn = norm_token_exec(&nc);
    if contains_chars(&nn, &tok) {
        return true;
    }
    let mut i: usize = 0;
    while i < g.aliases.len()
        invariant
            tok@ == token@,
            i <= g.aliases@.len(),
            forall|k: int|
                0 <= k < i ==> !contains_seq(norm_token(#[trigger] g.aliases@[k]@), token@),
        decreases g.aliases@.len() - i,
    {
        let ac = to_chars(g.aliases[i].as_str());
        let an = norm_token_exec(&ac);
        if contains_chars(&an, &tok) {
            return true;
        }
        i = i + 1;
    }
    false
}

/// Whether a directory name matches a game for the common-roots
/// heuristic: its normalized form contains, or is contained by, the
/// normalized name or a normalized alias of the game.
pub open spec fn dir_matches(name: Seq<char>, g: GameInfo) -> bool {
    ||| crate::enrich::contains_either(norm_token(name), norm_token(g.name@))
    ||| (exists|i: int|
        0 <= i < g.aliases@.len() && crate::enrich::contains_either(
            norm_token(name),
            norm_token(#[trigger] g.aliases@[i]@),
        ))
}

/// Decides whether a directory name matches a game's name or alias
/// tokens, in either containment direction.
pub fn dir_matches_game(name: &str, g: &GameInfo) -> (r: bool)
    ensures
        r == dir_matches(name@, *g),
{
    let dc = to_chars(name);
    let dn = norm_token_exec(&dc);
    let nc = to_chars(g.name.as_str());
    let nn = norm_token_exec(&nc);
    if contains_chars(&dn, &nn) || contains_chars(&nn, &dn) {
        return true;
    }
    let mut i: usize = 0;
    while i < g.aliases.len()
        invariant
            dn@ == norm_token(name@),
            i <= g.aliases@.len(),
            forall|k: int|
                0 <= k < i ==> !crate::enrich::contains_either(
                    norm_token(name@),
                    norm_token(#[trigger] g.aliases@[k]@),
                ),
        decreases g.aliases@.len() - i,
    {
        let ac = to_chars(g.aliases[i].as_str());
        let an = norm_token_exec(&ac);
        if contains_chars(&dn, &an) || contains_chars(&an, &dn) {
            return true;
        }
        i = i + 1;
    }
    false
}

/// The conventional save-subfolder names the common-roots heuristic
/// probes when a matched directory itself does not look like saves.
pub fn save_subdir_names() -> (r: Vec<String>)
    ensures
        r.deep_view() =~= seq!["SaveGames"@, "SaveData"@, "Saves"@, "Profiles"@],
{
    let mut out: Vec<String> = Vec::new();
    out.push(String::from_str("SaveGames"));
    out.push(String::from_str("SaveData"));
    out.push(String::from_str("Saves"));
    out.push(String::from_str("Profiles"));
    out
}

/// Picks the install-relative save directory: the first subdirectory
/// holding a file with a save-like extension, else the base directory
/// itself.
pub fn pick_install_save_dir(base_path: &String, subdirs: &Vec<(String, Vec<String>)>) -> (r:
    String)
    ensures
        ({
            let any = exists|k: int|
                0 <= k < subdirs@.len() && (exists|f: int|
                    0 <= f < (#[trigger] subdirs@[k]).1@.len() && has_save_ext(
                        #[trigger] subdirs@[k].1@[f]@,
                    ));
            if any {
                exists|k: int|
                    {
                        &&& 0 <= k < subdirs@.len()
                        &&& r@ == (#[trigger] subdirs@[k]).0@
                        &&& exists|f: int|
                            0 <= f < subdirs@[k].1@.len() && has_save_ext(
                                #[trigger] subdirs@[k].1@[f]@,
                            )
                    }
            } else {
                r@ == base_path@
            }
        }),
{
    let mut k: usize = 0;
    while k < subdirs.len()
        invariant
            k <= subdirs@.len(),
            forall|m: int|
                0 <= m < k ==> !(exists|f: int|
                    0 <= f < (#[trigger] subdirs@[m]).1@.len() && has_save_ext(
                        #[trigger] subdirs@[m].1@[f]@,
                    )),
        decreases subdirs@.len() - k,
    {
        let files = &subdirs[k].1;
        let mut f: usize = 0;
        let mut found = false;
        while f < files.len() && !found
            invariant
                f <= files@.len(),
                !found ==> forall|m: int|
                    0 <= m < f ==> !has_save_ext(#[trigger] files@[m]@),
                found ==> exists|m: int|
                    0 <= m < files@.len() && has_save_ext(#[trigger] files@[m]@),
            decreases files@.len() - f,
        {
            if is_save_file_name(files[f].as_str()) {
                found = true;
            }
            f = f + 1;
        }
        if found {
            return subdirs[k].0.clone();
        }
        k = k + 1;
    }
    base_path.clone()
}

// ------------------------------------------------------------------
// The two fallback heuristics, composed.
// ------------------------------------------------------------------

/// The install-relative subpath table: a recognized normalized pattern
/// and the subpath under the install directory where that game keeps its
/// saves.
pub fn install_relative_subpaths() -> (r: Vec<(String, String)>)
    ensures
        r@.len() == 1,
        r@[0].0@ == "blackmythwukong"@,
        r@[0].1@ == "b1/Saved/SaveGames"@,
{
    let mut out: Vec<(String, String)> = Vec::new();
    out.push((String::from_str("blackmythwukong"), String::from_str("b1/Saved/SaveGames")));
    out
}

/// The install-relative heuristic for one game: when the game's
/// normalized name or an alias carries the recognized pattern and the
/// conventional install-relative directory exists, one high-confidence
/// match at the picked directory — the first subdirectory holding a file
/// with a save-like extension, else that directory itself.
pub fn install_relative_match(
    game: &GameInfo,
    base_path: &String,
    base_is_dir: bool,
    subdirs: &Vec<(String, Vec<String>)>,
) -> (r: Option<SaveMatchResult>)
    ensures
        (r is Some) == (game_has_token(*game, "blackmythwukong"@) && base_is_dir),
        r matches Some(m) ==> {
            &&& m@.rule_id == "bmw-install-savegames"@
            &&& m.exists
            &&& m.confidence.num == 99
            &&& m.confidence.den == 100
            &&& ({
                let any = exists|k: int|
                    0 <= k < subdirs@.len() && (exists|f: int|
                        0 <= f < (#[trigger] subdirs@[k]).1@.len() && has_save_ext(
                            #[trigger] subdirs@[k].1@[f]@,
                        ));
                if any {
                    exists|k: int|
                        {
                            &&& 0 <= k < subdirs@.len()
                            &&& m@.resolved_path == (#[trigger] subdirs@[k]).0@
                            &&& exists|f: int|
                                0 <= f < subdirs@[k].1@.len() && has_save_ext(
                                    #[trigger] subdirs@[k].1@[f]@,
                                )
                        }
                } else {
                    m@.resolved_path == base_path@
                }
            })
        },
{
    if game_matches_token(game, "blackmythwukong") && base_is_dir {
        let picked = pick_install_save_dir(base_path, subdirs);
        Some(
            SaveMatchResult {
                rule_id: String::from_str("bmw-install-savegames"),
                resolved_path: picked,
                exists: true,
                confidence: Score { num: 99, den: 100 },
            },
        )
    } else {
        None
    }
}

/// Whether one conventional subfolder looks like it holds saves.
pub open spec fn sub_plausible(s: (String, DirListing)) -> bool {
    plausible_listing(s.1.files.deep_view(), s.1.dirs.deep_view())
}

/// The first conventional subfolder that looks like saves, if any.
pub open spec fn first_plausible_idx(subs: Seq<(String, DirListing)>) -> Option<int>
    decreases subs.len(),
{
    if subs.len() == 0 {
        None
    } else if sub_plausible(subs[0]) {
        Some(0)
    } else {
        match first_plausible_idx(subs.drop_first()) {
            Some(i) => Some(i + 1),
            None => None,
        }
    }
}

proof fn lemma_first_plausible_idx(subs: Seq<(String, DirListing)>)
    ensures
        match first_plausible_idx(subs) {
            Some(i) => 0 <= i < subs.len() && sub_plausible(subs[i]) && forall|k: int|
                0 <= k < i ==> !sub_plausible(subs[k]),
            None => forall|k: int| 0 <= k < subs.len() ==> !sub_plausible(subs[k]),
        },
    decreases subs.len(),
{
    if subs.len() > 0 && !sub_plausible(subs[0]) {
        lemma_first_plausible_idx(subs.drop_first());
        assert(forall|k: int| 1 <= k < subs.len() ==> subs[k] == subs.drop_first()[k - 1]);
    }
}

/// The per-directory decision of the common-roots heuristic, for one
/// child directory of a user root whose name and listings are given:
/// nothing unless the name matches the game; the directory itself
/// (signalled by the sentinel index `subs.len()`) when it looks like
/// saves; else the first conventional subfolder that does; else nothing.
pub fn common_root_candidate(
    name: &str,
    game: &GameInfo,
    own: &DirListing,
    subs: &Vec<(String, DirListing)>,
) -> (r: Option<usize>)
    ensures
        !dir_matches(name@, *game) ==> r is None,
        (dir_matches(name@, *game) && plausible_listing(
            own.files.deep_view(),
            own.dirs.deep_view(),
        )) ==> (r matches Some(i) && i == subs@.len()),
        (dir_matches(name@, *game) && !plausible_listing(
            own.files.deep_view(),
            own.dirs.deep_view(),
        )) ==> (match first_plausible_idx(subs@) {
            Some(fi) => r matches Some(i) && i == fi,
            None => r is None,
        }),
        r matches Some(i) ==> i <= subs@.len(),
{
    if !dir_matches_game(name, game) {
        return None;
    }
    if is_plausible_save_dir(own) {
        return Some(subs.len());
    }
    let ghost sv = subs@;
    proof {
        lemma_first_plausible_idx(sv);
    }
    let mut i: usize = 0;
    while i < subs.len()
        invariant
            sv == subs@,
            dir_matches(name@, *game),
            !plausible_listing(own.files.deep_view(), own.dirs.deep_view()),
            i <= sv.len(),
            forall|k: int| 0 <= k < i ==> !sub_plausible(#[trigger] sv[k]),
        decreases sv.len() - i,
    {
        if is_plausible_save_dir(&subs[i].1) {
            proof {
                lemma_first_plausible_idx(sv);
                match first_plausible_idx(sv) {
                    Some(m) => {
                        if m < i {
                            assert(!sub_plausible(sv[m]));
                        }
                        if m > i {
                            assert(!sub_plausible(sv[i as int]));
                        }
                    },
                    None => {
                        assert(!sub_plausible(sv[i as int]));
                    },
                }
            }
            return Some(i);
        }
        i = i + 1;
    }
    proof {
        lemma_first_plausible_idx(sv);
    }
    None
}

/// The match the common-roots heuristic emits for an accepted directory.
pub fn common_roots_match(path: String) -> (r: SaveMatchResult)
    ensures
        r@.rule_id == "common-roots-name-match"@,
        r@.resolved_path == path@,
        r.exists,
        r.confidence.num == 9,
        r.confidence.den == 10,
{
    SaveMatchResult {
        rule_id: String::from_str("common-roots-name-match"),
        resolved_path: path,
        exists: true,
        confidence: Score { num: 9, den: 10 },
    }
}

} // verus!
