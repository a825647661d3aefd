//! The enricher: matches detected candidates against the catalog and
//! substitutes canonical data.
//!
//! For each detected game, in order: an exact name/alias match; then a
//! normalized-token fuzzy match (lower-case, non-alphanumerics removed) in
//! which equal normalized strings match instantly and containment scores
//! by the length ratio of the shorter to the longer string; then an exact
//! match on the candidate's first alias. On a match the candidate's info
//! is wholly replaced by the catalog entry; install path and source are
//! preserved.

use vstd::prelude::*;
use crate::catalog::exact_match;
use crate::catalog::exact_query;
use crate::score::Score;
use crate::strutil::contains_chars;
use crate::strutil::contains_seq;
use crate::strutil::lower_char;
use crate::strutil::is_ascii_alnum;
use crate::strutil::lemma_trim_len;
use crate::strutil::to_chars;
use crate::strutil::to_lower;
use crate::strutil::trim_chars;
use crate::types::DetectedGame;
use crate::types::GameInfo;

verus! {

/// A comfortable bound on name lengths, far beyond any real title, under
/// which every score computation fits in a `u64`.
pub open spec fn len_ok(s: Seq<char>) -> bool {
    s.len() <= 0x0fff_ffff
}

/// A catalog entry whose name and aliases have reasonable lengths.
pub open spec fn gi_len_ok(g: GameInfo) -> bool {
    &&& len_ok(g.name@)
    &&& forall|i: int| 0 <= i < g.aliases@.len() ==> len_ok(#[trigger] g.aliases@[i]@)
}

/// The normalized key of a string: lower-cased, every character that is
/// not ASCII alphanumeric removed.
pub open spec fn normalize_key(s: Seq<char>) -> Seq<char>
    decreases s.len(),
{
    if s.len() == 0 {
        Seq::empty()
    } else {
        let pre = normalize_key(s.drop_last());
        let c = lower_char(s.last());
        if is_ascii_alnum(c) {
            pre.push(c)
        } else {
            pre
        }
    }
}

/// Computes the normalized key.
pub fn normalize_key_exec(v: &Vec<char>) -> (r: Vec<char>)
    ensures
        r@ == normalize_key(v@),
        r@.len() <= v@.len(),
    decreases v@.len(),
{
    let mut out: Vec<char> = Vec::new();
    let mut i: usize = 0;
    proof {
        assert(v@.take(0) =~= Seq::<char>::empty());
    }
    while i < v.len()
        invariant
            i <= v@.len(),
            out@ == normalize_key(v@.take(i as int)),
            out@.len() <= i,
        decreases v@.len() - i,
    {
        proof {
            assert(v@.take(i + 1).drop_last() =~= v@.take(i as int));
            assert(v@.take(i + 1).last() == v@[i as int]);
        }
        let c = crate::strutil::to_lower_char(v[i]);
        if ('a' <= c && c <= 'z') || ('0' <= c && c <= '9') {
            out.push(c);
        } else {
            proof {
                assert(!is_ascii_alnum(c));
            }
        }
        i = i + 1;
    }
    proof {
        assert(v@.take(v@.len() as int) =~= v@);
    }
    out
}

/// The enrichment fuzzy score for a name containment: `0.80 + 0.20 × r`
/// where `r` is shorter length over longer length, as an exact rational.
pub fn name_fuzzy_score(shorter: u64, longer: u64) -> (r: Score)
    requires
        0 < shorter <= longer,
        longer <= 0xffff_ffff,
    ensures
        r.num == 4 * longer + shorter,
        r.den == 5 * longer,
        r.valid(),
{
    Score { num: 4 * longer + shorter, den: 5 * longer }
}

/// The enrichment fuzzy score for an alias containment: `0.75 + 0.25 × r`.
pub fn alias_fuzzy_score(shorter: u64, longer: u64) -> (r: Score)
    requires
        0 < shorter <= longer,
        longer <= 0xffff_ffff,
    ensures
        r.num == 3 * longer + shorter,
        r.den == 4 * longer,
        r.valid(),
{
    Score { num: 3 * longer + shorter, den: 4 * longer }
}

/// The name fuzzy score strictly increases as the ratio of shorter to
/// longer normalized length approaches one.
pub proof fn lemma_name_fuzzy_score_monotone(a: Score, b: Score, s1: u64, l1: u64, s2: u64, l2: u64)
    requires
        0 < s1 <= l1,
        0 < s2 <= l2,
        a.num == 4 * l1 + s1,
        a.den == 5 * l1,
        b.num == 4 * l2 + s2,
        b.den == 5 * l2,
        s1 * l2 < s2 * l1,
    ensures
        a.spec_lt(b),
{
    assert((4 * l1 + s1) * (5 * l2) < (4 * l2 + s2) * (5 * l1)) by (nonlinear_arith)
        requires
            0 < s1 <= l1,
            0 < s2 <= l2,
            s1 * l2 < s2 * l1,
    ;
}

/// The alias fuzzy score strictly increases in the same way.
pub proof fn lemma_alias_fuzzy_score_monotone(
    a: Score,
    b: Score,
    s1: u64,
    l1: u64,
    s2: u64,
    l2: u64,
)
    requires
        0 < s1 <= l1,
        0 < s2 <= l2,
        a.num == 3 * l1 + s1,
        a.den == 4 * l1,
        b.num == 3 * l2 + s2,
        b.den == 4 * l2,
        s1 * l2 < s2 * l1,
    ensures
        a.spec_lt(b),
{
    assert((3 * l1 + s1) * (4 * l2) < (3 * l2 + s2) * (4 * l1)) by (nonlinear_arith)
        requires
            0 < s1 <= l1,
            0 < s2 <= l2,
            s1 * l2 < s2 * l1,
    ;
}

/// Two sequences where one contains the other.
pub open spec fn contains_either(a: Seq<char>, b: Seq<char>) -> bool {
    contains_seq(a, b) || contains_seq(b, a)
}

/// The name fuzzy score of two normalized lengths, at spec level.
pub open spec fn spec_name_score(a: int, b: int) -> Score {
    let s = if a <= b {
        a
    } else {
        b
    };
    let l = if a <= b {
        b
    } else {
        a
    };
    Score { num: (4 * l + s) as u64, den: (5 * l) as u64 }
}

/// The alias fuzzy score of two normalized lengths, at spec level.
pub open spec fn spec_alias_score(a: int, b: int) -> Score {
    let s = if a <= b {
        a
    } else {
        b
    };
    let l = if a <= b {
        b
    } else {
        a
    };
    Score { num: (3 * l + s) as u64, den: (4 * l) as u64 }
}

/// Whether an alias takes part in the fuzzy scan for `q`: its normalized
/// key is non-empty and contains or is contained in `q`.
pub open spec fn alias_rel(a: Seq<char>, q: Seq<char>) -> bool {
    normalize_key(a).len() > 0 && contains_either(normalize_key(a), q)
}

/// The first alias the fuzzy scan stops at, if any.
pub open spec fn alias_hit_idx(aliases: Seq<String>, q: Seq<char>) -> Option<int>
    decreases aliases.len(),
{
    if aliases.len() == 0 {
        None
    } else if alias_rel(aliases[0]@, q) {
        Some(0)
    } else {
        match alias_hit_idx(aliases.drop_first(), q) {
            Some(i) => Some(i + 1),
            None => None,
        }
    }
}

/// `alias_hit_idx` names the first related alias.
pub proof fn lemma_alias_hit_idx(aliases: Seq<String>, q: Seq<char>)
    ensures
        match alias_hit_idx(aliases, q) {
            Some(i) => 0 <= i < aliases.len() && alias_rel(aliases[i]@, q) && forall|k: int|
                0 <= k < i ==> !alias_rel(aliases[k]@, q),
            None => forall|k: int| 0 <= k < aliases.len() ==> !alias_rel(aliases[k]@, q),
        },
    decreases aliases.len(),
{
    if aliases.len() > 0 && !alias_rel(aliases[0]@, q) {
        lemma_alias_hit_idx(aliases.drop_first(), q);
        assert(forall|k: int| 1 <= k < aliases.len() ==> aliases[k] == aliases.drop_first()[k
            - 1]);
    }
}

/// A position that is related and has no related predecessor is the hit.
proof fn lemma_hit_is(aliases: Seq<String>, q: Seq<char>, j: int)
    requires
        0 <= j < aliases.len(),
        alias_rel(aliases[j]@, q),
        forall|k: int| 0 <= k < j ==> !alias_rel(aliases[k]@, q),
    ensures
        alias_hit_idx(aliases, q) == Some(j),
{
    lemma_alias_hit_idx(aliases, q);
    match alias_hit_idx(aliases, q) {
        Some(m) => {
            if m < j {
                assert(!alias_rel(aliases[m]@, q));
            }
            if m > j {
                assert(!alias_rel(aliases[j]@, q));
            }
        },
        None => {
            assert(!alias_rel(aliases[j]@, q));
        },
    }
}

/// An entry the scan returns at once: exact raw name or alias equality,
/// or normalized equality on the name or on the first related alias.
pub open spec fn entry_exact(g: GameInfo, q_raw: Seq<char>, q_norm: Seq<char>) -> bool {
    ||| exact_match(g, q_raw)
    ||| (normalize_key(g.name@).len() > 0 && q_norm.len() > 0 && normalize_key(g.name@) == q_norm)
    ||| (q_norm.len() > 0 && match alias_hit_idx(g.aliases@, q_norm) {
        Some(i) => normalize_key(g.aliases@[i]@) == q_norm,
        None => false,
    })
}

/// The containment candidate an entry's name offers.
pub open spec fn name_cand(g: GameInfo, q_norm: Seq<char>) -> Option<Score> {
    let gn = normalize_key(g.name@);
    if gn.len() > 0 && q_norm.len() > 0 && gn != q_norm && contains_either(gn, q_norm) {
        Some(spec_name_score(gn.len() as int, q_norm.len() as int))
    } else {
        None
    }
}

/// The containment candidate an entry's aliases offer.
pub open spec fn alias_cand(g: GameInfo, q_norm: Seq<char>) -> Option<Score> {
    if q_norm.len() > 0 {
        match alias_hit_idx(g.aliases@, q_norm) {
            Some(i) => if normalize_key(g.aliases@[i]@) != q_norm {
                Some(spec_alias_score(normalize_key(g.aliases@[i]@).len() as int, q_norm.len() as int))
            } else {
                None
            },
            None => None,
        }
    } else {
        None
    }
}

/// The best containment candidate an entry offers.
pub open spec fn entry_cand(g: GameInfo, q_norm: Seq<char>) -> Option<Score> {
    match (name_cand(g, q_norm), alias_cand(g, q_norm)) {
        (Some(a), Some(b)) => if a.spec_lt(b) {
            Some(b)
        } else {
            Some(a)
        },
        (Some(a), None) => Some(a),
        (None, Some(b)) => Some(b),
        (None, None) => None,
    }
}

/// Folds a candidate into the running best; a later candidate replaces
/// the best only when strictly better.
pub open spec fn merge_best(best: Option<(int, Score)>, i: int, cand: Option<Score>) -> Option<
    (int, Score),
> {
    match cand {
        None => best,
        Some(sc) => match best {
            None => Some((i, sc)),
            Some((b, bs)) => if bs.spec_lt(sc) {
                Some((i, sc))
            } else {
                best
            },
        },
    }
}

/// The index the fuzzy scan settles on, scanning from `i` with the
/// running best: the first exact entry, else the best containment.
pub open spec fn fuzzy_from(
    index: Seq<GameInfo>,
    q_raw: Seq<char>,
    q_norm: Seq<char>,
    i: int,
    best: Option<(int, Score)>,
) -> Option<int>
    decreases index.len() - i,
{
    if i < 0 || i >= index.len() {
        match best {
            Some((b, _)) => Some(b),
            None => None,
        }
    } else if entry_exact(index[i], q_raw, q_norm) {
        Some(i)
    } else {
        fuzzy_from(index, q_raw, q_norm, i + 1, merge_best(best, i, entry_cand(index[i], q_norm)))
    }
}

/// The index the whole fuzzy scan settles on.
pub open spec fn fuzzy_result(index: Seq<GameInfo>, q_raw: Seq<char>, q_norm: Seq<char>) -> Option<
    int,
> {
    fuzzy_from(index, q_raw, q_norm, 0, None)
}

/// Assesses one entry: whether the scan returns it at once, and the
/// containment candidate it otherwise offers.
fn assess_entry(g: &GameInfo, q_raw: &Vec<char>, q_norm: &Vec<char>) -> (r: (bool, Option<Score>))
    requires
        gi_len_ok(*g),
        len_ok(q_norm@),
    ensures
        r.0 == entry_exact(*g, q_raw@, q_norm@),
        !r.0 ==> r.1 == entry_cand(*g, q_norm@),
{
    let name_chars = to_chars(g.name.as_str());
    let name_l = to_lower(&name_chars);
    if crate::strutil::eq_chars(&name_l, q_raw) {
        return (true, None);
    }
    let mut i: usize = 0;
    while i < g.aliases.len()
        invariant
            i <= g.aliases@.len(),
            forall|k: int| 0 <= k < i ==> crate::strutil::lower_seq(g.aliases@[k]@) != q_raw@,
        decreases g.aliases@.len() - i,
    {
        let a_chars = to_chars(g.aliases[i].as_str());
        let a_l = to_lower(&a_chars);
        if crate::strutil::eq_chars(&a_l, q_raw) {
            return (true, None);
        }
        i = i + 1;
    }
    proof {
        assert(!exact_match(*g, q_raw@));
    }
    // Normalized name comparison.
    let gn = normalize_key_exec(&name_chars);
    let mut ncand: Option<Score> = None;
    if gn.len() > 0 && q_norm.len() > 0 {
        if crate::strutil::eq_chars(&gn, q_norm) {
            return (true, None);
        }
        if contains_chars(&gn, q_norm) || contains_chars(q_norm, &gn) {
            let a = gn.len() as u64;
            let b = q_norm.len() as u64;
            let sc = if a <= b {
                name_fuzzy_score(a, b)
            } else {
                name_fuzzy_score(b, a)
            };
            proof {
                assert(sc == spec_name_score(gn@.len() as int, q_norm@.len() as int));
            }
            ncand = Some(sc);
        }
    }
    proof {
        assert(ncand == name_cand(*g, q_norm@));
    }
    // Alias scan: stop at the first related alias.
    let mut acand: Option<Score> = None;
    if q_norm.len() > 0 {
        let ghost aliases = g.aliases@;
        proof {
            lemma_alias_hit_idx(aliases, q_norm@);
        }
        let mut j: usize = 0;
        let mut stopped = false;
        while j < g.aliases.len() && !stopped
            invariant
                aliases == g.aliases@,
                gi_len_ok(*g),
                len_ok(q_norm@),
                q_norm@.len() > 0,
                j <= aliases.len(),
                !stopped ==> forall|k: int| 0 <= k < j ==> !alias_rel(aliases[k]@, q_norm@),
                !stopped ==> acand is None,
                stopped ==> {
                    &&& alias_hit_idx(aliases, q_norm@) == Some((j - 1) as int)
                    &&& q_norm@.len() > 0
                    &&& if normalize_key(aliases[j - 1]@) == q_norm@ {
                        false
                    } else {
                        acand == Some(
                            spec_alias_score(
                                normalize_key(aliases[j - 1]@).len() as int,
                                q_norm@.len() as int,
                            ),
                        )
                    }
                },
            decreases aliases.len() - j,
        {
            let a_chars = to_chars(g.aliases[j].as_str());
            let an = normalize_key_exec(&a_chars);
            if an.len() > 0 {
                if crate::strutil::eq_chars(&an, q_norm) {
                    proof {
                        assert(alias_rel(aliases[j as int]@, q_norm@)) by {
                            assert(contains_seq(an@, q_norm@)) by {
                                assert(crate::strutil::matches_at(an@, q_norm@, 0)) by {
                                    assert(an@.subrange(0, q_norm@.len() as int) =~= q_norm@);
                                }
                            }
                        }
                        lemma_hit_is(aliases, q_norm@, j as int);
                    }
                    return (true, None);
                }
                if contains_chars(&an, q_norm) || contains_chars(q_norm, &an) {
                    proof {
                        assert(alias_rel(aliases[j as int]@, q_norm@));
                        lemma_hit_is(aliases, q_norm@, j as int);
                    }
                    let a = an.len() as u64;
                    let b = q_norm.len() as u64;
                    let sc = if a <= b {
                        alias_fuzzy_score(a, b)
                    } else {
                        alias_fuzzy_score(b, a)
                    };
                    proof {
                        assert(sc == spec_alias_score(an@.len() as int, q_norm@.len() as int));
                    }
                    acand = Some(sc);
                    stopped = true;
                } else {
                    proof {
                        assert(!alias_rel(aliases[j as int]@, q_norm@));
                    }
                }
            } else {
                proof {
                    assert(!alias_rel(aliases[j as int]@, q_norm@));
                }
            }
            j = j + 1;
        }
        proof {
            lemma_alias_hit_idx(aliases, q_norm@);
            if !stopped {
                assert(alias_hit_idx(aliases, q_norm@) is None);
            }
            assert(acand == alias_cand(*g, q_norm@));
        }
    } else {
        proof {
            assert(acand == alias_cand(*g, q_norm@));
        }
    }
    proof {
        assert(!entry_exact(*g, q_raw@, q_norm@));
    }
    let merged: Option<Score> = match (&ncand, &acand) {
        (Some(a), Some(b)) => if a.lt(b) {
            Some(*b)
        } else {
            Some(*a)
        },
        (Some(a), None) => Some(*a),
        (None, Some(b)) => Some(*b),
        (None, None) => None,
    };
    proof {
        assert(merged == entry_cand(*g, q_norm@));
    }
    (false, merged)
}

/// The fuzzy lookup: the first exact or normalized-equal entry, else the
/// best containment candidate of the whole catalog.
pub fn find_by_name_fuzzy<'a>(index: &'a Vec<GameInfo>, name: &str) -> (r: Option<&'a GameInfo>)
    requires
        forall|k: int| 0 <= k < index@.len() ==> gi_len_ok(#[trigger] index@[k]),
        len_ok(name@),
    ensures
        match r {
            Some(g) => {
                &&& fuzzy_result(
                    index@,
                    exact_query(name@),
                    normalize_key(exact_query(name@)),
                ) matches Some(i)
                &&& 0 <= i < index@.len()
                &&& g == &index@[i]
            },
            None => fuzzy_result(index@, exact_query(name@), normalize_key(exact_query(name@)))
                is None,
        },
{
    let name_chars = to_chars(name);
    let trimmed = trim_chars(&name_chars);
    let q_raw = to_lower(&trimmed);
    let q_norm = normalize_key_exec(&q_raw);
    let ghost qr = q_raw@;
    let ghost qn = q_norm@;
    proof {
        assert(len_ok(qn)) by {
            assert(qn.len() <= qr.len());
            lemma_trim_len(name_chars@);
            assert(qr.len() <= name_chars@.len());
        }
    }
    let mut best_i: usize = 0;
    let mut best_s = Score { num: 0, den: 1 };
    let mut has_best = false;
    let mut i: usize = 0;
    while i < index.len()
        invariant
            forall|k: int| 0 <= k < index@.len() ==> gi_len_ok(#[trigger] index@[k]),
            qr == exact_query(name@),
            qn == normalize_key(exact_query(name@)),
            q_raw@ == qr,
            q_norm@ == qn,
            len_ok(qn),
            i <= index@.len(),
            has_best ==> best_i < index@.len(),
            fuzzy_from(index@, qr, qn, 0, None) == fuzzy_from(
                index@,
                qr,
                qn,
                i as int,
                if has_best {
                    Some((best_i as int, best_s))
                } else {
                    None
                },
            ),
        decreases index@.len() - i,
    {
        let (is_exact, cand) = assess_entry(&index[i], &q_raw, &q_norm);
        if is_exact {
            return Some(&index[i]);
        }
        match cand {
            Some(sc) => {
                if !has_best || best_s.lt(&sc) {
                    best_i = i;
                    best_s = sc;
                    has_best = true;
                }
            },
            None => {},
        }
        i = i + 1;
    }
    if has_best {
        Some(&index[best_i])
    } else {
        None
    }
}

/// How one candidate's info is chosen: the first exact match; else the
/// fuzzy result; else an exact match on the first alias; else unchanged.
pub open spec fn enriched_info(out: GameInfo, inp: GameInfo, index: Seq<GameInfo>) -> bool {
    let q = exact_query(inp.name@);
    let qn = normalize_key(q);
    if exists|i: int| 0 <= i < index.len() && exact_match(index[i], q) {
        exists|i: int|
            {
                &&& 0 <= i < index.len()
                &&& exact_match(index[i], q)
                &&& forall|k: int| 0 <= k < i ==> !exact_match(index[k], q)
                &&& out@ == index[i]@
            }
    } else {
        match fuzzy_result(index, q, qn) {
            Some(i) => 0 <= i < index.len() && out@ == index[i]@,
            None => {
                let aq = exact_query(inp.aliases@[0]@);
                if inp.aliases@.len() > 0 && (exists|i: int|
                    0 <= i < index.len() && exact_match(index[i], aq)) {
                    exists|i: int|
                        {
                            &&& 0 <= i < index.len()
                            &&& exact_match(index[i], aq)
                            &&& forall|k: int| 0 <= k < i ==> !exact_match(index[k], aq)
                            &&& out@ == index[i]@
                        }
                } else {
                    out@ == inp@
                }
            },
        }
    }
}

/// One enriched observation: the info is chosen as `enriched_info` says;
/// the install path and the source are preserved.
pub open spec fn enriched_one(out: DetectedGame, inp: DetectedGame, index: Seq<GameInfo>) -> bool {
    &&& out.install_path == inp.install_path
    &&& out.source == inp.source
    &&& enriched_info(out.info, inp.info, index)
}

/// Enriches every detected candidate against the catalog: exact match
/// first, then normalized fuzzy match, then an exact match on the first
/// alias; on a match the info is wholly replaced, and the install path
/// and source always survive.
pub fn enrich_with_pcgw(detected: &Vec<DetectedGame>, index: &Vec<GameInfo>) -> (r: Vec<
    DetectedGame,
>)
    requires
        forall|k: int| 0 <= k < index@.len() ==> gi_len_ok(#[trigger] index@[k]),
        forall|k: int| 0 <= k < detected@.len() ==> len_ok(#[trigger] detected@[k].info.name@),
    ensures
        r@.len() == detected@.len(),
        forall|k: int| 0 <= k < r@.len() ==> enriched_one(#[trigger] r@[k], detected@[k], index@),
{
    let mut out: Vec<DetectedGame> = Vec::new();
    let mut i: usize = 0;
    while i < detected.len()
        invariant
            forall|k: int| 0 <= k < index@.len() ==> gi_len_ok(#[trigger] index@[k]),
            forall|k: int|
                0 <= k < detected@.len() ==> len_ok(#[trigger] detected@[k].info.name@),
            i <= detected@.len(),
            out@.len() == i,
            forall|k: int|
                0 <= k < i ==> enriched_one(#[trigger] out@[k], detected@[k], index@),
        decreases detected@.len() - i,
    {
        let d = &detected[i];
        let chosen: GameInfo;
        match crate::catalog::find_by_name(index, d.info.name.as_str()) {
            Some(g) => {
                chosen = g.duplicate();
            },
            None => {
                match find_by_name_fuzzy(index, d.info.name.as_str()) {
                    Some(g) => {
                        chosen = g.duplicate();
                    },
                    None => {
                        if d.info.aliases.len() > 0 {
                            match crate::catalog::find_by_name(
                                index,
                                d.info.aliases[0].as_str(),
                            ) {
                                Some(g) => {
                                    chosen = g.duplicate();
                                },
                                None => {
                                    chosen = d.info.duplicate();
                                },
                            }
                        } else {
                            chosen = d.info.duplicate();
                        }
                    },
                }
            },
        }
        let e = DetectedGame {
            info: chosen,
            install_path: crate::types::copy_opt_string(&d.install_path),
            source: d.source,
        };
        proof {
            assert(enriched_one(e, detected@[i as int], index@));
        }
        out.push(e);
        i = i + 1;
    }
    out
}

/// The exact-precedence law: whenever some catalog entry matches a
/// candidate exactly, enrichment replaces its info with an exactly
/// matching entry — never with a merely fuzzy one.
pub proof fn lemma_exact_wins(out: DetectedGame, inp: DetectedGame, index: Seq<GameInfo>)
    requires
        enriched_one(out, inp, index),
        exists|i: int|
            0 <= i < index.len() && exact_match(#[trigger] index[i], exact_query(inp.info.name@)),
    ensures
        exists|i: int|
            {
                &&& 0 <= i < index.len()
                &&& exact_match(#[trigger] index[i], exact_query(inp.info.name@))
                &&& out.info@ == index[i]@
            },
{
}

} // verus!
