//! Source scanning: the library-manifest reader, candidate construction
//! from directory listings, and the aggregator that collapses duplicate
//! detections by normalized install path.
//!
//! Every filesystem and registry access stays with the caller: this module
//! takes manifest text and directory listings as plain values and decides
//! what they mean.

use vstd::prelude::*;
use crate::strutil::chars_to_string;
use crate::strutil::is_space;
use crate::strutil::lower_seq;
use crate::strutil::replace_all;
use crate::strutil::replace_chars;
use crate::strutil::to_chars;
use crate::strutil::to_lower;
use crate::strutil::trim_chars;
use crate::strutil::trim_spec;
use crate::types::DetectedGame;
use crate::types::DetectedGameView;
use crate::types::DetectionSource;
use crate::types::GameInfo;

verus! {

// ------------------------------------------------------------------
// The library manifest: a permissive scan for `"path" "<value>"` pairs.
// ------------------------------------------------------------------

/// The number of leading whitespace characters.
pub open spec fn ws_len(s: Seq<char>) -> int
    decreases s.len(),
{
    if s.len() > 0 && is_space(s[0]) {
        1 + ws_len(s.drop_first())
    } else {
        0
    }
}

/// The number of leading non-quote characters.
pub open spec fn nonq_len(s: Seq<char>) -> int
    decreases s.len(),
{
    if s.len() > 0 && s[0] != '"' {
        1 + nonq_len(s.drop_first())
    } else {
        0
    }
}

/// `ws_len` counts exactly the leading whitespace.
pub proof fn lemma_ws_len(s: Seq<char>)
    ensures
        0 <= ws_len(s) <= s.len(),
        forall|k: int| 0 <= k < ws_len(s) ==> is_space(s[k]),
        ws_len(s) < s.len() ==> !is_space(s[ws_len(s)]),
    decreases s.len(),
{
    if s.len() > 0 && is_space(s[0]) {
        lemma_ws_len(s.drop_first());
        assert(forall|k: int| 1 <= k < s.len() ==> s[k] == s.drop_first()[k - 1]);
    }
}

/// `nonq_len` counts exactly the leading non-quote characters.
pub proof fn lemma_nonq_len(s: Seq<char>)
    ensures
        0 <= nonq_len(s) <= s.len(),
        forall|k: int| 0 <= k < nonq_len(s) ==> s[k] != '"',
        nonq_len(s) < s.len() ==> s[nonq_len(s)] == '"',
    decreases s.len(),
{
    if s.len() > 0 && s[0] != '"' {
        lemma_nonq_len(s.drop_first());
        assert(forall|k: int| 1 <= k < s.len() ==> s[k] == s.drop_first()[k - 1]);
    }
}

/// A `"path" "<value>"` occurrence at the head of `s`: the marker
/// `path"`, optional whitespace, an opening quote, and a non-empty run of
/// non-quote characters. Yields the raw value and the length consumed.
pub open spec fn vdf_match_head(s: Seq<char>) -> Option<(Seq<char>, int)> {
    if s.len() >= 5 && s.take(5) == "path\""@ {
        let t = s.skip(5);
        let w = ws_len(t);
        if w < t.len() && t[w] == '"' {
            let u = t.skip(w + 1);
            let n = nonq_len(u);
            if n > 0 {
                Some((u.take(n), 5 + w + 1 + n))
            } else {
                None
            }
        } else {
            None
        }
    } else {
        None
    }
}

/// One extracted value, cleaned: trimmed, with doubled backslashes
/// collapsed; an all-whitespace value yields nothing.
pub open spec fn vdf_clean(raw: Seq<char>) -> Seq<Seq<char>> {
    let t = trim_spec(raw);
    if t.len() > 0 {
        seq![replace_all(t, seq!['\\', '\\'], seq!['\\'])]
    } else {
        Seq::empty()
    }
}

/// Every library path the manifest text yields, scanning left to right.
pub open spec fn vdf_paths(s: Seq<char>) -> Seq<Seq<char>>
    decreases s.len(),
    via vdf_paths_decreases
{
    if s.len() == 0 {
        Seq::empty()
    } else {
        match vdf_match_head(s) {
            Some((raw, used)) => vdf_clean(raw) + vdf_paths(s.skip(used)),
            None => vdf_paths(s.drop_first()),
        }
    }
}

#[via_fn]
proof fn vdf_paths_decreases(s: Seq<char>) {
    if s.len() > 0 {
        match vdf_match_head(s) {
            Some((raw, used)) => {
                let t = s.skip(5);
                lemma_ws_len(t);
                let w = ws_len(t);
                lemma_nonq_len(t.skip(w + 1));
            },
            None => {},
        }
    }
}

/// Extracts every `"path" "<value>"` pair from library-manifest text:
/// a permissive scan, not a grammar — tolerant of malformed manifests.
/// Values are trimmed and doubled backslashes collapsed.
pub fn parse_libraryfolders_vdf(content: &str) -> (r: Vec<String>)
    ensures
        r.deep_view() == vdf_paths(content@),
{
    let v = to_chars(content);
    let n: usize = v.len();
    let marker = to_chars("path\"");
    proof {
        reveal_strlit("path\"");
    }
    let mut out: Vec<String> = Vec::new();
    let mut i: usize = 0;
    proof {
        assert(v@.skip(0) =~= v@);
        assert(out.deep_view() =~= Seq::<Seq<char>>::empty());
        assert(Seq::<Seq<char>>::empty() + vdf_paths(v@) =~= vdf_paths(v@));
    }
    while i < n
        invariant
            n == v@.len(),
            v@ == content@,
            marker@ == "path\""@,
            marker@.len() == 5,
            i <= n,
            vdf_paths(content@) == out.deep_view() + vdf_paths(v@.skip(i as int)),
        decreases n - i,
    {
        let ghost rest = v@.skip(i as int);
        let mut matched = false;
        if n - i >= 5 && crate::strutil::check_match_at(&v, &marker, i) {
            proof {
                assert(rest.take(5) =~= v@.subrange(i as int, i + 5));
            }
            // Skip whitespace after the marker.
            let mut w: usize = i + 5;
            let ghost t = rest.skip(5);
            proof {
                assert(t =~= v@.skip(i + 5));
                lemma_ws_len(t);
            }
            while w < n && crate::strutil::is_space_char(v[w])
                invariant
                    n == v@.len(),
                    i + 5 <= w <= n,
                    t == v@.skip(i + 5),
                    forall|k: int| 0 <= k < w - (i + 5) ==> is_space(t[k]),
                decreases n - w,
            {
                proof {
                    assert(t[w - (i + 5)] == v@[w as int]);
                }
                w = w + 1;
            }
            proof {
                lemma_ws_len(t);
                if w < n {
                    assert(t[w - (i + 5)] == v@[w as int]);
                    assert(!is_space(t[w - (i + 5)]));
                }
                assert(ws_len(t) == w - (i + 5)) by {
                    let wl = ws_len(t);
                    if wl < w - (i + 5) {
                        assert(is_space(t[wl]));
                    }
                    if wl > w - (i + 5) {
                        assert(is_space(t[w - (i + 5)]));
                    }
                }
            }
            if w < n && v[w] == '"' {
                // Collect the non-empty run of non-quote characters.
                let mut e: usize = w + 1;
                let ghost u = t.skip(w - (i + 5) + 1);
                proof {
                    assert(u =~= v@.skip(w + 1));
                    lemma_nonq_len(u);
                }
                while e < n && v[e] != '"'
                    invariant
                        n == v@.len(),
                        w + 1 <= e <= n,
                        u == v@.skip(w + 1),
                        forall|k: int| 0 <= k < e - (w + 1) ==> u[k] != '"',
                    decreases n - e,
                {
                    proof {
                        assert(u[e - (w + 1)] == v@[e as int]);
                    }
                    e = e + 1;
                }
                proof {
                    lemma_nonq_len(u);
                    if e < n {
                        assert(u[e - (w + 1)] == v@[e as int]);
                    }
                    assert(nonq_len(u) == e - (w + 1)) by {
                        let nl = nonq_len(u);
                        if nl < e - (w + 1) {
                            assert(u[nl] != '"');
                        }
                        if nl > e - (w + 1) {
                            assert(u[e - (w + 1)] != '"');
                        }
                    }
                }
                if e > w + 1 {
                    matched = true;
                    let mut raw: Vec<char> = Vec::new();
                    crate::strutil::push_range(&mut raw, &v, w + 1, e);
                    proof {
                        assert(raw@ =~= u.take(e - (w + 1)));
                    }
                    let trimmed = trim_chars(&raw);
                    let ghost pre = out.deep_view();
                    if trimmed.len() > 0 {
                        let mut bs2: Vec<char> = Vec::new();
                        bs2.push('\\');
                        bs2.push('\\');
                        let mut bs1: Vec<char> = Vec::new();
                        bs1.push('\\');
                        proof {
                            assert(bs2@ =~= seq!['\\', '\\']);
                            assert(bs1@ =~= seq!['\\']);
                        }
                        let cleaned = replace_chars(&trimmed, &bs2, &bs1);
                        out.push(chars_to_string(&cleaned));
                        proof {
                            assert(out.deep_view() =~= pre.push(cleaned@));
                            assert(pre.push(cleaned@) =~= pre + seq![cleaned@]);
                        }
                    }
                    proof {
                        let used = 5 + (w - (i + 5)) + 1 + (e - (w + 1));
                        assert(vdf_match_head(rest) == Some((u.take(e - (w + 1)), used)));
                        assert(rest.skip(used) =~= v@.skip(e as int));
                        assert(vdf_paths(rest) == vdf_clean(raw@) + vdf_paths(v@.skip(e as int)));
                        assert(pre + (vdf_clean(raw@) + vdf_paths(v@.skip(e as int)))
                            =~= out.deep_view() + vdf_paths(v@.skip(e as int)));
                    }
                    i = e;
                }
            }
            if !matched {
                proof {
                    assert(vdf_match_head(rest) is None);
                }
            }
        } else {
            proof {
                if rest.len() >= 5 {
                    assert(rest.take(5) =~= v@.subrange(i as int, i + 5));
                }
                assert(vdf_match_head(rest) is None);
            }
        }
        if !matched {
            proof {
                assert(rest.drop_first() =~= v@.skip(i + 1));
                assert(vdf_paths(rest) == vdf_paths(v@.skip(i + 1)));
            }
            i = i + 1;
        }
    }
    proof {
        assert(v@.skip(n as int) =~= Seq::<char>::empty());
        assert(out.deep_view() + Seq::<Seq<char>>::empty() =~= out.deep_view());
    }
    out
}

// ------------------------------------------------------------------
// Candidate construction from directory listings.
// ------------------------------------------------------------------

/// One directory seen while scanning: its name and its full path.
#[derive(Debug, Clone)]
pub struct DirEntry {
    pub name: String,
    pub path: String,
}

/// A bare candidate built from a directory: the directory name as the
/// game name, no aliases, no rules.
pub open spec fn bare_candidate(d: DetectedGameView, name: Seq<char>, path: Seq<char>,
    source: DetectionSource) -> bool {
    &&& d.info.name == name
    &&& d.info.aliases.len() == 0
    &&& d.info.pcgw_id is None
    &&& d.info.install_rules.len() == 0
    &&& d.info.save_rules.len() == 0
    &&& d.install_path == Some(path)
    &&& d.source == source
}

/// Turns directory entries into bare candidates of the given source.
pub fn candidates_from_dirs(entries: &Vec<DirEntry>, source: DetectionSource) -> (r: Vec<
    DetectedGame,
>)
    ensures
        r@.len() == entries@.len(),
        forall|k: int|
            0 <= k < r@.len() ==> bare_candidate(
                #[trigger] r@[k]@,
                entries@[k].name@,
                entries@[k].path@,
                source,
            ),
{
    let mut out: Vec<DetectedGame> = Vec::new();
    let mut i: usize = 0;
    while i < entries.len()
        invariant
            i <= entries@.len(),
            out@.len() == i,
            forall|k: int|
                0 <= k < i ==> bare_candidate(
                    #[trigger] out@[k]@,
                    entries@[k].name@,
                    entries@[k].path@,
                    source,
                ),
        decreases entries@.len() - i,
    {
        let info = GameInfo {
            name: entries[i].name.clone(),
            aliases: Vec::new(),
            pcgw_id: None,
            install_rules: Vec::new(),
            save_rules: Vec::new(),
        };
        let d = DetectedGame {
            info,
            install_path: Some(entries[i].path.clone()),
            source,
        };
        proof {
            assert(d@.info.aliases =~= Seq::<Seq<char>>::empty());
            assert(d@.info.install_rules =~= Seq::<crate::types::InstallRuleView>::empty());
            assert(d@.info.save_rules =~= Seq::<crate::types::SaveRuleView>::empty());
        }
        out.push(d);
        i = i + 1;
    }
    out
}

// ------------------------------------------------------------------
// Aggregation: first occurrence wins, keyed by normalized install path.
// ------------------------------------------------------------------

/// The sequence without its trailing backslashes.
pub open spec fn strip_trailing_bs(s: Seq<char>) -> Seq<char>
    decreases s.len(),
{
    if s.len() > 0 && s.last() == '\\' {
        strip_trailing_bs(s.drop_last())
    } else {
        s
    }
}

/// An install path normalized into a dedup key: separators unified to
/// backslashes, trailing separators stripped, ASCII-lower-cased.
pub open spec fn norm_path_key(p: Seq<char>) -> Seq<char> {
    lower_seq(strip_trailing_bs(replace_all(p, seq!['/'], seq!['\\'])))
}

/// The tag of a detection source, for name-keyed fallback.
pub open spec fn source_tag(s: DetectionSource) -> Seq<char> {
    match s {
        DetectionSource::Steam => "Steam"@,
        DetectionSource::Epic => "Epic"@,
        DetectionSource::Origin => "Origin"@,
        DetectionSource::Registry => "Registry"@,
        DetectionSource::CommonDir => "CommonDir"@,
        DetectionSource::Process => "Process"@,
        DetectionSource::Manual => "Manual"@,
    }
}

/// The dedup key of one detection: its normalized install path, or the
/// lower-cased name and the source when no path is known.
pub open spec fn detected_key(d: DetectedGameView) -> Seq<char> {
    match d.install_path {
        Some(p) => norm_path_key(p),
        None => lower_seq(d.info.name) + seq![':', ':'] + source_tag(d.source),
    }
}

/// The detections that survive deduplication: an item stays exactly when
/// no earlier item shares its key.
pub open spec fn spec_dedup(items: Seq<DetectedGameView>) -> Seq<DetectedGameView>
    decreases items.len(),
{
    if items.len() == 0 {
        Seq::empty()
    } else {
        let pre = spec_dedup(items.drop_last());
        if exists|k: int|
            0 <= k < items.len() - 1 && detected_key(items[k]) == detected_key(items.last()) {
            pre
        } else {
            pre.push(items.last())
        }
    }
}

/// Everything deduplication keeps comes from the input.
pub proof fn lemma_dedup_members(items: Seq<DetectedGameView>)
    ensures
        forall|j: int|
            0 <= j < spec_dedup(items).len() ==> exists|k: int|
                0 <= k < items.len() && items[k] == #[trigger] spec_dedup(items)[j],
    decreases items.len(),
{
    if items.len() > 0 {
        let pre = items.drop_last();
        lemma_dedup_members(pre);
        assert(forall|k: int| 0 <= k < items.len() - 1 ==> items[k] == pre[k]);
        if !(exists|k: int|
            0 <= k < items.len() - 1 && detected_key(#[trigger] items[k]) == detected_key(
                items.last(),
            )) {
            assert(spec_dedup(items) == spec_dedup(pre).push(items.last()));
            assert(spec_dedup(items)[spec_dedup(items).len() - 1] == items.last());
            assert(forall|j: int|
                0 <= j < spec_dedup(pre).len() ==> spec_dedup(items)[j] == spec_dedup(pre)[j]);
            assert forall|j: int| 0 <= j < spec_dedup(items).len() implies exists|k: int|
                0 <= k < items.len() && items[k] == #[trigger] spec_dedup(items)[j] by {
                if j < spec_dedup(pre).len() {
                    let k0 = choose|k: int| 0 <= k < pre.len() && pre[k] == spec_dedup(pre)[j];
                    assert(items[k0] == spec_dedup(items)[j]);
                } else {
                    assert(items[items.len() - 1] == spec_dedup(items)[j]);
                }
            }
        }
    }
}

/// Every input key survives deduplication.
pub proof fn lemma_dedup_covers(items: Seq<DetectedGameView>)
    ensures
        forall|k: int|
            0 <= k < items.len() ==> exists|j: int|
                0 <= j < spec_dedup(items).len() && detected_key(#[trigger] items[k])
                    == detected_key(spec_dedup(items)[j]),
    decreases items.len(),
{
    if items.len() > 0 {
        let pre = items.drop_last();
        lemma_dedup_covers(pre);
        assert(forall|k: int| 0 <= k < items.len() - 1 ==> items[k] == pre[k]);
        if exists|k: int|
            0 <= k < items.len() - 1 && detected_key(#[trigger] items[k]) == detected_key(
                items.last(),
            ) {
            let k0 = choose|k: int|
                0 <= k < items.len() - 1 && detected_key(#[trigger] items[k]) == detected_key(
                    items.last(),
                );
            assert(spec_dedup(items) == spec_dedup(pre));
            assert forall|k: int| 0 <= k < items.len() implies exists|j: int|
                0 <= j < spec_dedup(items).len() && detected_key(#[trigger] items[k])
                    == detected_key(spec_dedup(items)[j]) by {
                if k < items.len() - 1 {
                    assert(items[k] == pre[k]);
                } else {
                    let j0 = choose|j: int|
                        0 <= j < spec_dedup(pre).len() && detected_key(pre[k0]) == detected_key(
                            spec_dedup(pre)[j],
                        );
                    assert(detected_key(items[k]) == detected_key(spec_dedup(items)[j0]));
                }
            }
        } else {
            assert(spec_dedup(items) == spec_dedup(pre).push(items.last()));
            assert(spec_dedup(items)[spec_dedup(items).len() - 1] == items.last());
            assert(forall|j: int|
                0 <= j < spec_dedup(pre).len() ==> spec_dedup(items)[j] == spec_dedup(pre)[j]);
            assert forall|k: int| 0 <= k < items.len() implies exists|j: int|
                0 <= j < spec_dedup(items).len() && detected_key(#[trigger] items[k])
                    == detected_key(spec_dedup(items)[j]) by {
                if k < items.len() - 1 {
                    assert(items[k] == pre[k]);
                    let j0 = choose|j: int|
                        0 <= j < spec_dedup(pre).len() && detected_key(pre[k]) == detected_key(
                            spec_dedup(pre)[j],
                        );
                    assert(detected_key(items[k]) == detected_key(spec_dedup(items)[j0]));
                } else {
                    assert(detected_key(items[k]) == detected_key(
                        spec_dedup(items)[spec_dedup(items).len() - 1],
                    ));
                }
            }
        }
    }
}

/// After deduplication all keys are distinct.
pub proof fn lemma_dedup_distinct(items: Seq<DetectedGameView>)
    ensures
        forall|i: int, j: int|
            0 <= i < j < spec_dedup(items).len() ==> detected_key(#[trigger] spec_dedup(items)[i])
                != detected_key(#[trigger] spec_dedup(items)[j]),
    decreases items.len(),
{
    if items.len() > 0 {
        let pre = items.drop_last();
        lemma_dedup_distinct(pre);
        lemma_dedup_members(pre);
        if !(exists|k: int|
            0 <= k < items.len() - 1 && detected_key(items[k]) == detected_key(items.last())) {
            assert(spec_dedup(items) == spec_dedup(pre).push(items.last()));
            assert forall|i: int|
                0 <= i < spec_dedup(pre).len() implies detected_key(spec_dedup(items)[i])
                != detected_key(items.last()) by {
                let w = choose|k: int|
                    0 <= k < pre.len() && pre[k] == spec_dedup(pre)[i];
                assert(items[w] == pre[w]);
            }
        }
    }
}

/// The aggregation law: when two detections share a normalized key, the
/// deduplicated list keeps exactly one entry with that key.
pub proof fn lemma_dedup_retains_exactly_one(items: Seq<DetectedGameView>, a: int, b: int)
    requires
        0 <= a < items.len(),
        0 <= b < items.len(),
        detected_key(items[a]) == detected_key(items[b]),
    ensures
        exists|j: int|
            0 <= j < spec_dedup(items).len() && detected_key(#[trigger] spec_dedup(items)[j])
                == detected_key(items[a]),
        forall|i: int, j: int|
            (0 <= i < spec_dedup(items).len() && 0 <= j < spec_dedup(items).len() && detected_key(
                #[trigger] spec_dedup(items)[i],
            ) == detected_key(items[a]) && detected_key(#[trigger] spec_dedup(items)[j])
                == detected_key(items[a])) ==> i == j,
{
    lemma_dedup_covers(items);
    lemma_dedup_distinct(items);
}

/// Computes the dedup key of one detection.
fn detected_key_exec(d: &DetectedGame) -> (key: Vec<char>)
    ensures
        key@ == detected_key(d@),
{
    match &d.install_path {
        Some(p) => {
            let pc = to_chars(p.as_str());
            let mut fs: Vec<char> = Vec::new();
            fs.push('/');
            let mut bs: Vec<char> = Vec::new();
            bs.push('\\');
            proof {
                assert(fs@ =~= seq!['/']);
                assert(bs@ =~= seq!['\\']);
            }
            let rep = replace_chars(&pc, &fs, &bs);
            let mut end: usize = rep.len();
            proof {
                assert(rep@.take(rep@.len() as int) =~= rep@);
            }
            while end > 0 && rep[end - 1] == '\\'
                invariant
                    end <= rep@.len(),
                    strip_trailing_bs(rep@) == strip_trailing_bs(rep@.take(end as int)),
                decreases end,
            {
                proof {
                    assert(rep@.take(end as int).drop_last() =~= rep@.take(end - 1));
                }
                end = end - 1;
            }
            proof {
                assert(strip_trailing_bs(rep@.take(end as int)) == rep@.take(end as int));
            }
            let mut stripped: Vec<char> = Vec::new();
            crate::strutil::push_range(&mut stripped, &rep, 0, end);
            proof {
                assert(stripped@ =~= rep@.take(end as int));
            }
            to_lower(&stripped)
        },
        None => {
            let nc = to_chars(d.info.name.as_str());
            let mut k = to_lower(&nc);
            k.push(':');
            k.push(':');
            let tag: &str = match d.source {
                DetectionSource::Steam => "Steam",
                DetectionSource::Epic => "Epic",
                DetectionSource::Origin => "Origin",
                DetectionSource::Registry => "Registry",
                DetectionSource::CommonDir => "CommonDir",
                DetectionSource::Process => "Process",
                DetectionSource::Manual => "Manual",
            };
            let tc = to_chars(tag);
            crate::strutil::extend_chars(&mut k, &tc);
            proof {
                assert(k@ =~= lower_seq(d.info.name@) + seq![':', ':'] + source_tag(d.source));
            }
            k
        },
    }
}

/// Deduplicates detections by normalized install path (or name and
/// source, when no path is known); the first occurrence wins and order
/// is preserved.
#[verifier::rlimit(80)]
pub fn dedup_detected(items: &Vec<DetectedGame>) -> (r: Vec<DetectedGame>)
    ensures
        r.deep_view() == spec_dedup(items.deep_view()),
{
    let ghost iv = items.deep_view();
    let mut out: Vec<DetectedGame> = Vec::new();
    let mut keys: Vec<Vec<char>> = Vec::new();
    let mut i: usize = 0;
    proof {
        assert(iv.take(0) =~= Seq::<DetectedGameView>::empty());
        assert(out.deep_view() =~= Seq::<DetectedGameView>::empty());
    }
    while i < items.len()
        invariant
            iv == items.deep_view(),
            iv.len() == items@.len(),
            i <= items@.len(),
            out.deep_view() == spec_dedup(iv.take(i as int)),
            keys@.len() == out@.len(),
            out.deep_view().len() == out@.len(),
            forall|j: int| 0 <= j < keys@.len() ==> keys@[j]@ == detected_key(
                #[trigger] out.deep_view()[j],
            ),
        decreases items@.len() - i,
    {
        proof {
            assert(iv.take(i + 1).drop_last() =~= iv.take(i as int));
            assert(iv.take(i + 1).last() == iv[i as int]);
            assert(iv[i as int] == items@[i as int]@);
        }
        // Compute this item's key.
        let d = &items[i];
        let key: Vec<char> = detected_key_exec(d);
        proof {
            assert(key@ == detected_key(iv[i as int]));
        }
        // Have we kept an item with this key already?
        let mut seen = false;
        let mut j: usize = 0;
        while j < keys.len() && !seen
            invariant
                keys@.len() == out@.len(),
                out.deep_view().len() == out@.len(),
                forall|m: int| 0 <= m < keys@.len() ==> keys@[m]@ == detected_key(
                    #[trigger] out.deep_view()[m],
                ),
                j <= keys@.len(),
                !seen ==> forall|m: int|
                    0 <= m < j ==> detected_key(#[trigger] out.deep_view()[m]) != key@,
                seen ==> exists|m: int|
                    0 <= m < keys@.len() && detected_key(#[trigger] out.deep_view()[m]) == key@,
            decreases keys@.len() - j,
        {
            if crate::strutil::eq_chars(&keys[j], &key) {
                proof {
                    assert(detected_key(out.deep_view()[j as int]) == key@);
                }
                seen = true;
            }
            j = j + 1;
        }
        proof {
            lemma_dedup_members(iv.take(i as int));
            lemma_dedup_covers(iv.take(i as int));
            let cur = iv.take(i + 1).last();
            if seen {
                // Some earlier input item already carries this key.
                let m = choose|m: int|
                    0 <= m < out.deep_view().len() && detected_key(out.deep_view()[m]) == key@;
                let k0 = choose|k: int|
                    0 <= k < iv.take(i as int).len() && iv.take(i as int)[k] == out.deep_view()[m];
                assert(iv.take(i as int)[k0] == iv[k0]);
                assert(iv.take(i + 1)[k0] == iv[k0]);
                assert(detected_key(iv.take(i + 1)[k0]) == detected_key(cur));
                assert(spec_dedup(iv.take(i + 1)) == spec_dedup(iv.take(i as int)));
            } else {
                // No kept key matches, so no earlier input item does.
                assert forall|k: int|
                    0 <= k < iv.take(i + 1).len() - 1 implies detected_key(
                    #[trigger] iv.take(i + 1)[k],
                ) != detected_key(cur) by {
                    assert(iv.take(i + 1)[k] == iv.take(i as int)[k]);
                    let pj = choose|j: int|
                        0 <= j < spec_dedup(iv.take(i as int)).len() && detected_key(
                            iv.take(i as int)[k],
                        ) == detected_key(spec_dedup(iv.take(i as int))[j]);
                    assert(detected_key(out.deep_view()[pj]) != key@);
                }
                assert(spec_dedup(iv.take(i + 1)) == spec_dedup(iv.take(i as int)).push(cur));
            }
        }
        if !seen {
            let ghost pre = out.deep_view();
            let ghost vpre = out@;
            out.push(d.duplicate());
            keys.push(key);
            proof {
                assert forall|m: int| 0 <= m < vpre.len() implies out.deep_view()[m]
                    == pre[m] by {
                    assert(out@[m] == vpre[m]);
                    assert(pre[m] == vpre[m]@);
                }
                assert(out.deep_view()[vpre.len() as int] == iv[i as int]);
                assert(out.deep_view() =~= pre.push(iv[i as int]));
            }
        }
        i = i + 1;
    }
    proof {
        assert(iv.take(iv.len() as int) =~= iv);
    }
    out
}

/// Merges the per-source candidate lists in configured order — each list
/// contributes only when its source is enabled — and collapses duplicates;
/// the first occurrence wins.
pub fn detect_installed_games(
    options: &crate::types::ScanOptions,
    steam: &Vec<DetectedGame>,
    epic: &Vec<DetectedGame>,
    origin: &Vec<DetectedGame>,
    common: &Vec<DetectedGame>,
) -> (r: Vec<DetectedGame>)
    ensures
        ({
            let merged = (if options.search_steam {
                steam.deep_view()
            } else {
                Seq::empty()
            }) + (if options.search_epic {
                epic.deep_view()
            } else {
                Seq::empty()
            }) + (if options.search_origin {
                origin.deep_view()
            } else {
                Seq::empty()
            }) + (if options.search_common_dirs {
                common.deep_view()
            } else {
                Seq::empty()
            });
            r.deep_view() == spec_dedup(merged)
        }),
{
    let mut all: Vec<DetectedGame> = Vec::new();
    if options.search_steam {
        append_duplicates(&mut all, steam);
    }
    if options.search_epic {
        append_duplicates(&mut all, epic);
    }
    if options.search_origin {
        append_duplicates(&mut all, origin);
    }
    if options.search_common_dirs {
        append_duplicates(&mut all, common);
    }
    proof {
        assert(Seq::<DetectedGameView>::empty() + steam.deep_view() =~= steam.deep_view());
    }
    let r = dedup_detected(&all);
    proof {
        let merged = (if options.search_steam {
            steam.deep_view()
        } else {
            Seq::<DetectedGameView>::empty()
        }) + (if options.search_epic {
            epic.deep_view()
        } else {
            Seq::<DetectedGameView>::empty()
        }) + (if options.search_origin {
            origin.deep_view()
        } else {
            Seq::<DetectedGameView>::empty()
        }) + (if options.search_common_dirs {
            common.deep_view()
        } else {
            Seq::<DetectedGameView>::empty()
        });
        assert(all.deep_view() =~= merged);
    }
    r
}

/// Appends view-equal copies of `src` to `dst`.
fn append_duplicates(dst: &mut Vec<DetectedGame>, src: &Vec<DetectedGame>)
    ensures
        final(dst).deep_view() == old(dst).deep_view() + src.deep_view(),
{
    let ghost pre = dst.deep_view();
    let mut i: usize = 0;
    while i < src.len()
        invariant
            i <= src@.len(),
            src.deep_view().len() == src@.len(),
            dst.deep_view() == pre + src.deep_view().take(i as int),
        decreases src@.len() - i,
    {
        proof {
            assert(src.deep_view()[i as int] == src@[i as int]@);
        }
        let ghost dpre = dst.deep_view();
        let ghost vpre = dst@;
        dst.push(src[i].duplicate());
        i = i + 1;
        proof {
            assert forall|m: int| 0 <= m < vpre.len() implies dst.deep_view()[m]
                == dpre[m] by {
                assert(dst@[m] == vpre[m]);
                assert(dpre[m] == vpre[m]@);
            }
            assert(dst.deep_view()[vpre.len() as int] == src.deep_view()[i - 1]);
            assert(dst.deep_view() =~= dpre.push(src.deep_view()[i - 1]));
            assert(src.deep_view().take(i as int) =~= src.deep_view().take(i - 1).push(
                src.deep_view()[i - 1],
            ));
            assert((pre + src.deep_view().take(i - 1)).push(src.deep_view()[i - 1]) =~= pre
                + src.deep_view().take(i - 1).push(src.deep_view()[i - 1]));
            assert(dst.deep_view() == pre + src.deep_view().take(i as int));
        }
    }
    proof {
        assert(src.deep_view().take(src.deep_view().len() as int) =~= src.deep_view());
    }
}

} // verus!
