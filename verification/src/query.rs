//! The catalog query service: ranked exact/alias/fuzzy lookup.
//!
//! An exact canonical-name match scores 1.0; an exact alias match 0.95;
//! with fuzzy enabled, a substring match on the name scores
//! `0.75 + 0.25 × min(1, |query|/|name|)` and on an alias
//! `0.70 + 0.30 × min(1, |query|/|alias|)` — all as exact rationals.
//! Results come sorted by descending score, truncated to the limit.

use vstd::prelude::*;
use vstd::string::StringExecFns;
use crate::enrich::gi_len_ok;
use crate::enrich::len_ok;
use crate::score::Score;
use crate::strutil::contains_chars;
use crate::strutil::contains_seq;
use crate::strutil::lower_seq;
use crate::strutil::to_chars;
use crate::strutil::to_lower;
use crate::strutil::trim_chars;
use crate::types::GameInfo;
use crate::types::PcgwQueryItem;
use crate::types::PcgwQueryOptions;

verus! {

/// A contained pattern is never longer than its container.
proof fn lemma_contains_len(a: Seq<char>, b: Seq<char>)
    requires
        contains_seq(a, b),
    ensures
        b.len() <= a.len(),
{
    let i = choose|i: int| crate::strutil::matches_at(a, b, i);
}

/// Containment between equal-length sequences is equality.
proof fn lemma_contains_eq_len(a: Seq<char>, b: Seq<char>)
    requires
        contains_seq(a, b),
        a.len() == b.len(),
    ensures
        a == b,
{
    let i = choose|i: int| crate::strutil::matches_at(a, b, i);
    assert(a.subrange(i, i + b.len() as int) == b);
    assert(a.subrange(0, a.len() as int) =~= a);
}

/// Whether some save rule of the entry declares the platform.
pub open spec fn platform_ok(g: GameInfo, platform: Option<Seq<char>>) -> bool {
    match platform {
        None => true,
        Some(p) => exists|r: int, i: int|
            {
                &&& 0 <= r < g.save_rules@.len()
                &&& 0 <= i < (#[trigger] g.save_rules@[r]).platforms@.len()
                &&& lower_seq(#[trigger] g.save_rules@[r].platforms@[i]@) == lower_seq(p)
            },
    }
}

/// The first alias whose lower-cased form contains the query.
pub open spec fn alias_sub_idx(aliases: Seq<String>, q: Seq<char>) -> Option<int>
    decreases aliases.len(),
{
    if aliases.len() == 0 {
        None
    } else if contains_seq(lower_seq(aliases[0]@), q) {
        Some(0)
    } else {
        match alias_sub_idx(aliases.drop_first(), q) {
            Some(i) => Some(i + 1),
            None => None,
        }
    }
}

proof fn lemma_alias_sub_idx(aliases: Seq<String>, q: Seq<char>)
    ensures
        match alias_sub_idx(aliases, q) {
            Some(i) => 0 <= i < aliases.len() && contains_seq(lower_seq(aliases[i]@), q)
                && forall|k: int|
                0 <= k < i ==> !contains_seq(lower_seq(aliases[k]@), q),
            None => forall|k: int|
                0 <= k < aliases.len() ==> !contains_seq(lower_seq(aliases[k]@), q),
        },
    decreases aliases.len(),
{
    if aliases.len() > 0 && !contains_seq(lower_seq(aliases[0]@), q) {
        lemma_alias_sub_idx(aliases.drop_first(), q);
        assert(forall|k: int| 1 <= k < aliases.len() ==> aliases[k] == aliases.drop_first()[k
            - 1]);
    }
}

/// The query fuzzy score against a name of length `n`:
/// `0.75 + 0.25 × min(1, q/n)` with the length floored at one.
pub open spec fn q_name_score(qlen: int, nlen: int) -> Score {
    let l = if nlen < 1 {
        1
    } else {
        nlen
    };
    let s = if qlen <= l {
        qlen
    } else {
        l
    };
    Score { num: (3 * l + s) as u64, den: (4 * l) as u64 }
}

/// The query fuzzy score against an alias of length `a`:
/// `0.70 + 0.30 × min(1, q/a)` with the length floored at one.
pub open spec fn q_alias_score(qlen: int, alen: int) -> Score {
    let l = if alen < 1 {
        1
    } else {
        alen
    };
    let s = if qlen <= l {
        qlen
    } else {
        l
    };
    Score { num: (7 * l + 3 * s) as u64, den: (10 * l) as u64 }
}

/// How one entry scores against the normalized query, and on what
/// grounds — or nothing, when it does not match.
pub open spec fn query_score(g: GameInfo, q: Seq<char>, fuzzy: bool) -> Option<
    (Score, Seq<char>),
> {
    if lower_seq(g.name@) == q {
        Some((Score { num: 1, den: 1 }, "name"@))
    } else if exists|i: int| 0 <= i < g.aliases@.len() && lower_seq(#[trigger] g.aliases@[i]@)
        == q {
        Some((Score { num: 19, den: 20 }, "alias"@))
    } else if fuzzy && contains_seq(lower_seq(g.name@), q) {
        Some((q_name_score(q.len() as int, g.name@.len() as int), "fuzzy"@))
    } else if fuzzy && alias_sub_idx(g.aliases@, q) is Some {
        let i = alias_sub_idx(g.aliases@, q)->Some_0;
        Some((q_alias_score(q.len() as int, g.aliases@[i]@.len() as int), "fuzzy"@))
    } else {
        None
    }
}

/// Every query score is a valid rational no greater than one.
proof fn lemma_query_score_le_one(g: GameInfo, q: Seq<char>, fuzzy: bool)
    requires
        gi_len_ok(g),
        len_ok(q),
        query_score(g, q, fuzzy) is Some,
    ensures
        query_score(g, q, fuzzy)->Some_0.0.valid(),
        query_score(g, q, fuzzy)->Some_0.0.spec_le(Score { num: 1, den: 1 }),
{
    if lower_seq(g.name@) == q {
    } else if exists|i: int| 0 <= i < g.aliases@.len() && lower_seq(#[trigger] g.aliases@[i]@)
        == q {
    } else if fuzzy && contains_seq(lower_seq(g.name@), q) {
    } else if fuzzy && alias_sub_idx(g.aliases@, q) is Some {
        lemma_alias_sub_idx(g.aliases@, q);
    }
}

/// A score of exactly one is an exact-name match: every other ground
/// scores strictly below one.
proof fn lemma_score_one_is_name(g: GameInfo, q: Seq<char>, fuzzy: bool)
    requires
        gi_len_ok(g),
        len_ok(q),
        query_score(g, q, fuzzy) is Some,
        query_score(g, q, fuzzy)->Some_0.0.same_value(Score { num: 1, den: 1 }),
    ensures
        query_score(g, q, fuzzy)->Some_0.1 == "name"@,
        lower_seq(g.name@) == q,
{
    if lower_seq(g.name@) != q {
        if exists|i: int| 0 <= i < g.aliases@.len() && lower_seq(#[trigger] g.aliases@[i]@)
            == q {
        } else if fuzzy && contains_seq(lower_seq(g.name@), q) {
            let sc = q_name_score(q.len() as int, g.name@.len() as int);
            lemma_contains_len(lower_seq(g.name@), q);
            if sc.same_value(Score { num: 1, den: 1 }) {
                // num == den forces the query as long as the name.
                assert(q.len() == lower_seq(g.name@).len());
                lemma_contains_eq_len(lower_seq(g.name@), q);
            }
        } else if fuzzy && alias_sub_idx(g.aliases@, q) is Some {
            lemma_alias_sub_idx(g.aliases@, q);
            let i = alias_sub_idx(g.aliases@, q)->Some_0;
            let al = lower_seq(g.aliases@[i]@);
            let sc = q_alias_score(q.len() as int, g.aliases@[i]@.len() as int);
            lemma_contains_len(al, q);
            if sc.same_value(Score { num: 1, den: 1 }) {
                assert(q.len() == al.len());
                lemma_contains_eq_len(al, q);
            }
        }
    }
}

/// A maximal score bounded by one and at least a value-one score is
/// itself of value one.
proof fn lemma_value_one_le(x: Score, s: Score)
    requires
        x.valid(),
        s.valid(),
        x.same_value(Score { num: 1, den: 1 }),
        x.spec_le(s),
        s.spec_le(Score { num: 1, den: 1 }),
    ensures
        s.same_value(Score { num: 1, den: 1 }),
{
    assert(s.num * 1 == 1 * s.den) by (nonlinear_arith)
        requires
            0 < x.den,
            0 < s.den,
            x.num * 1 == 1 * x.den,
            x.num * s.den <= s.num * x.den,
            s.num * 1 <= 1 * s.den,
    ;
}

/// One result item carries an entry's data and its exact score and
/// ground.
pub open spec fn item_from(it: PcgwQueryItem, index: Seq<GameInfo>, q: Seq<char>, fuzzy: bool,
    platform: Option<Seq<char>>) -> bool {
    exists|e: int|
        {
            &&& 0 <= e < index.len()
            &&& it.info@ == (#[trigger] index[e])@
            &&& platform_ok(index[e], platform)
            &&& query_score(index[e], q, fuzzy) == Some((it.score, it.matched_by@))
        }
}

/// Decides whether some save rule declares the platform.
fn platform_ok_exec(g: &GameInfo, platform: &Option<String>) -> (r: bool)
    ensures
        r == platform_ok(*g, platform.deep_view()),
{
    match platform {
        None => true,
        Some(p) => {
            let pc = to_chars(p.as_str());
            let pl = to_lower(&pc);
            proof {
                assert(platform.deep_view() == Some(p@));
            }
            let mut rr: usize = 0;
            while rr < g.save_rules.len()
                invariant
                    platform.deep_view() == Some(p@),
                    pl@ == lower_seq(p@),
                    rr <= g.save_rules@.len(),
                    forall|r2: int, i2: int|
                        (0 <= r2 < rr && 0 <= i2 < (#[trigger] g.save_rules@[r2]).platforms@.len())
                            ==> lower_seq(#[trigger] g.save_rules@[r2].platforms@[i2]@)
                            != lower_seq(p@),
                decreases g.save_rules@.len() - rr,
            {
                let rule = &g.save_rules[rr];
                let mut i: usize = 0;
                while i < rule.platforms.len()
                    invariant
                        platform.deep_view() == Some(p@),
                        pl@ == lower_seq(p@),
                        rr < g.save_rules@.len(),
                        rule == &g.save_rules@[rr as int],
                        i <= rule.platforms@.len(),
                        forall|i2: int|
                            0 <= i2 < i ==> lower_seq(#[trigger] rule.platforms@[i2]@)
                                != lower_seq(p@),
                    decreases rule.platforms@.len() - i,
                {
                    let vc = to_chars(rule.platforms[i].as_str());
                    let vl = to_lower(&vc);
                    if crate::strutil::eq_chars(&vl, &pl) {
                        proof {
                            assert(0 <= rr < g.save_rules@.len() && 0 <= i < g.save_rules@[
                                rr as int].platforms@.len() && lower_seq(
                                g.save_rules@[rr as int].platforms@[i as int]@,
                            ) == lower_seq(p@));
                            assert(platform.deep_view() == Some(p@));
                            assert(platform_ok(*g, platform.deep_view()));
                        }
                        return true;
                    }
                    i = i + 1;
                }
                rr = rr + 1;
            }
            false
        },
    }
}

/// Scores one entry against the normalized query.
fn query_score_exec(g: &GameInfo, q: &Vec<char>, fuzzy: bool) -> (r: Option<(Score, String)>)
    requires
        gi_len_ok(*g),
        len_ok(q@),
    ensures
        match r {
            Some(p) => query_score(*g, q@, fuzzy) == Some((p.0, p.1@)),
            None => query_score(*g, q@, fuzzy) is None,
        },
{
    let nc = to_chars(g.name.as_str());
    let nl = to_lower(&nc);
    if crate::strutil::eq_chars(&nl, q) {
        return Some((Score { num: 1, den: 1 }, String::from_str("name")));
    }
    let mut i: usize = 0;
    while i < g.aliases.len()
        invariant
            lower_seq(g.name@) != q@,
            i <= g.aliases@.len(),
            forall|k: int| 0 <= k < i ==> lower_seq(#[trigger] g.aliases@[k]@) != q@,
        decreases g.aliases@.len() - i,
    {
        let ac = to_chars(g.aliases[i].as_str());
        let al = to_lower(&ac);
        if crate::strutil::eq_chars(&al, q) {
            proof {
                assert(lower_seq(g.aliases@[i as int]@) == q@);
            }
            return Some(
                (Score { num: 19, den: 20 }, String::from_str("alias")),
            );
        }
        i = i + 1;
    }
    if !fuzzy {
        return None;
    }
    if contains_chars(&nl, q) {
        let nlen = nl.len() as u64;
        let l: u64 = if nlen < 1 {
            1
        } else {
            nlen
        };
        let qlen = q.len() as u64;
        let s: u64 = if qlen <= l {
            qlen
        } else {
            l
        };
        return Some(
            (Score { num: 3 * l + s, den: 4 * l }, String::from_str("fuzzy")),
        );
    }
    let ghost aliases = g.aliases@;
    proof {
        lemma_alias_sub_idx(aliases, q@);
    }
    let mut j: usize = 0;
    while j < g.aliases.len()
        invariant
            aliases == g.aliases@,
            gi_len_ok(*g),
            len_ok(q@),
            fuzzy,
            lower_seq(g.name@) != q@,
            forall|k: int| 0 <= k < aliases.len() ==> lower_seq(#[trigger] aliases[k]@) != q@,
            !contains_seq(lower_seq(g.name@), q@),
            j <= aliases.len(),
            forall|k: int| 0 <= k < j ==> !contains_seq(lower_seq(aliases[k]@), q@),
        decreases aliases.len() - j,
    {
        let ac = to_chars(g.aliases[j].as_str());
        let al = to_lower(&ac);
        if contains_chars(&al, q) {
            proof {
                lemma_alias_sub_idx(aliases, q@);
                match alias_sub_idx(aliases, q@) {
                    Some(m) => {
                        if m < j {
                            assert(!contains_seq(lower_seq(aliases[m]@), q@));
                        }
                        if m > j {
                            assert(!contains_seq(lower_seq(aliases[j as int]@), q@));
                        }
                    },
                    None => {
                        assert(!contains_seq(lower_seq(aliases[j as int]@), q@));
                    },
                }
            }
            let alen = al.len() as u64;
            let l: u64 = if alen < 1 {
                1
            } else {
                alen
            };
            let qlen = q.len() as u64;
            let s: u64 = if qlen <= l {
                qlen
            } else {
                l
            };
            return Some(
                (Score { num: 7 * l + 3 * s, den: 10 * l }, String::from_str(
                    "fuzzy",
                )),
            );
        }
        j = j + 1;
    }
    proof {
        lemma_alias_sub_idx(aliases, q@);
    }
    None
}

/// The query admits entry `e`: it passes the platform filter and scores.
pub open spec fn admitted(
    index: Seq<GameInfo>,
    e: int,
    q: Seq<char>,
    fuzzy: bool,
    platform: Option<Seq<char>>,
) -> bool {
    &&& 0 <= e < index.len()
    &&& platform_ok(index[e], platform)
    &&& query_score(index[e], q, fuzzy) is Some
}

/// How many entries the query admits and scores.
pub open spec fn scored_count(
    index: Seq<GameInfo>,
    q: Seq<char>,
    fuzzy: bool,
    platform: Option<Seq<char>>,
) -> int
    decreases index.len(),
{
    if index.len() == 0 {
        0
    } else {
        scored_count(index.drop_last(), q, fuzzy, platform) + (
        if platform_ok(index.last(), platform) && query_score(index.last(), q, fuzzy) is Some {
            1int
        } else {
            0int
        })
    }
}

/// The item entry `g` yields: its data, its exact score and ground.
pub open spec fn entry_item(it: PcgwQueryItem, g: GameInfo, q: Seq<char>, fuzzy: bool) -> bool {
    &&& it.info@ == g@
    &&& query_score(g, q, fuzzy) == Some((it.score, it.matched_by@))
}

/// Membership of an item in a sequence of items.
pub open spec fn in_seq(x: PcgwQueryItem, s: Seq<PcgwQueryItem>) -> bool {
    exists|m: int| 0 <= m < s.len() && s[m] == x
}

/// Searches the catalog: exact name, exact alias, then — with fuzzy
/// enabled — substring matches, each with its exact score; entries not
/// declaring the requested platform are excluded; the result is sorted
/// by descending score and truncated to the limit (20 by default).
///
/// Whenever some admitted entry's canonical name equals the query, the
/// first result is such an entry, matched by name with score exactly one.
#[verifier::rlimit(100)]
pub fn pcgw_search(index: &Vec<GameInfo>, name: &str, options: &PcgwQueryOptions) -> (r: Vec<
    PcgwQueryItem,
>)
    requires
        forall|k: int| 0 <= k < index@.len() ==> gi_len_ok(#[trigger] index@[k]),
        len_ok(name@),
    ensures
        forall|k: int|
            0 <= k < r@.len() ==> item_from(
                #[trigger] r@[k],
                index@,
                crate::catalog::exact_query(name@),
                options.fuzzy,
                options.platform.deep_view(),
            ),
        forall|i: int, j: int|
            0 <= i < j < r@.len() ==> (#[trigger] r@[j]).score.spec_le((#[trigger] r@[i]).score),
        r@.len() <= (match options.limit {
            Some(l) => l as int,
            None => 20,
        }),
        // Completeness: the result holds one item per admitted scoring
        // entry, up to the limit; a dropped entry only loses to a full
        // result whose tail already scores at least as high.
        ({
            let q = crate::catalog::exact_query(name@);
            let pv = options.platform.deep_view();
            let lim: int = match options.limit {
                Some(l) => l as int,
                None => 20,
            };
            let n = scored_count(index@, q, options.fuzzy, pv);
            &&& r@.len() == (if n <= lim {
                n
            } else {
                lim
            })
            &&& forall|e: int|
                #[trigger] admitted(index@, e, q, options.fuzzy, pv) ==> (exists|k: int|
                    0 <= k < r@.len() && entry_item(
                        #[trigger] r@[k],
                        index@[e],
                        q,
                        options.fuzzy,
                    )) || (r@.len() == lim && (lim == 0 || query_score(
                    index@[e],
                    q,
                    options.fuzzy,
                )->Some_0.0.spec_le(r@[r@.len() - 1].score)))
        }),
        ({
            let q = crate::catalog::exact_query(name@);
            let lim: int = match options.limit {
                Some(l) => l as int,
                None => 20,
            };
            (lim >= 1 && exists|e: int|
                0 <= e < index@.len() && platform_ok(#[trigger] index@[e],
                    options.platform.deep_view()) && lower_seq(index@[e].name@) == q) ==> {
                &&& r@.len() > 0
                &&& r@[0].score.same_value(Score { num: 1, den: 1 })
                &&& r@[0].matched_by@ == "name"@
                &&& lower_seq(r@[0].info.name@) == q
            }
        }),
{
    let name_chars = to_chars(name);
    let trimmed = trim_chars(&name_chars);
    let q = to_lower(&trimmed);
    let ghost qv = q@;
    proof {
        crate::strutil::lemma_trim_len(name_chars@);
    }
    let limit: usize = match options.limit {
        Some(l) => l,
        None => 20,
    };
    // Score the admitted entries, in catalog order.
    let ghost pv = options.platform.deep_view();
    let mut items: Vec<PcgwQueryItem> = Vec::new();
    let mut e: usize = 0;
    proof {
        assert(index@.take(0) =~= Seq::<GameInfo>::empty());
    }
    while e < index.len()
        invariant
            forall|k: int| 0 <= k < index@.len() ==> gi_len_ok(#[trigger] index@[k]),
            qv == crate::catalog::exact_query(name@),
            q@ == qv,
            len_ok(qv),
            pv == options.platform.deep_view(),
            e <= index@.len(),
            items@.len() == scored_count(index@.take(e as int), qv, options.fuzzy, pv),
            forall|ee: int|
                (0 <= ee < e && #[trigger] admitted(index@, ee, qv, options.fuzzy, pv))
                    ==> exists|k: int|
                    0 <= k < items@.len() && entry_item(
                        #[trigger] items@[k],
                        index@[ee],
                        qv,
                        options.fuzzy,
                    ),
            forall|k: int|
                0 <= k < items@.len() ==> item_from(
                    #[trigger] items@[k],
                    index@,
                    qv,
                    options.fuzzy,
                    options.platform.deep_view(),
                ),
            forall|k: int| 0 <= k < items@.len() ==> (#[trigger] items@[k]).score.valid(),
            forall|ee: int|
                (0 <= ee < e && platform_ok(#[trigger] index@[ee], options.platform.deep_view())
                    && lower_seq(index@[ee].name@) == qv) ==> exists|k: int|
                    0 <= k < items@.len() && (#[trigger] items@[k]).score.same_value(
                        Score { num: 1, den: 1 },
                    ),
        decreases index@.len() - e,
    {
        proof {
            assert(index@.take(e + 1).drop_last() =~= index@.take(e as int));
            assert(index@.take(e + 1).last() == index@[e as int]);
        }
        let g = &index[e];
        if platform_ok_exec(g, &options.platform) {
            match query_score_exec(g, &q, options.fuzzy) {
                Some(p) => {
                    let it = PcgwQueryItem { info: g.duplicate(), score: p.0, matched_by: p.1 };
                    proof {
                        lemma_query_score_le_one(index@[e as int], qv, options.fuzzy);
                        assert(item_from(
                            it,
                            index@,
                            qv,
                            options.fuzzy,
                            options.platform.deep_view(),
                        ));
                        assert(entry_item(it, index@[e as int], qv, options.fuzzy));
                    }
                    let ghost pre = items@;
                    items.push(it);
                    proof {
                        if lower_seq(index@[e as int].name@) == qv {
                            assert(items@[items@.len() - 1].score.same_value(
                                Score { num: 1, den: 1 },
                            ));
                        }
                        assert(forall|k: int| 0 <= k < pre.len() ==> items@[k] == pre[k]);
                        assert(entry_item(
                            items@[items@.len() - 1],
                            index@[e as int],
                            qv,
                            options.fuzzy,
                        ));
                        assert forall|ee: int|
                            (0 <= ee < e + 1 && #[trigger] admitted(
                                index@,
                                ee,
                                qv,
                                options.fuzzy,
                                pv,
                            )) implies exists|k: int|
                            0 <= k < items@.len() && entry_item(
                                #[trigger] items@[k],
                                index@[ee],
                                qv,
                                options.fuzzy,
                            ) by {
                            if ee < e {
                                let kx = choose|k: int|
                                    0 <= k < pre.len() && entry_item(
                                        #[trigger] pre[k],
                                        index@[ee],
                                        qv,
                                        options.fuzzy,
                                    );
                                assert(entry_item(items@[kx], index@[ee], qv, options.fuzzy));
                            }
                        }
                    }
                },
                None => {
                    proof {
                        if lower_seq(index@[e as int].name@) == qv {
                            assert(query_score(index@[e as int], qv, options.fuzzy) is Some);
                        }
                        assert(!admitted(index@, e as int, qv, options.fuzzy, pv));
                    }
                },
            }
        } else {
            proof {
                assert(!admitted(index@, e as int, qv, options.fuzzy, pv));
            }
        }
        e = e + 1;
    }
    proof {
        assert(index@.take(index@.len() as int) =~= index@);
    }
    // Sort by descending score: repeatedly move the best remaining item.
    let mut sorted: Vec<PcgwQueryItem> = Vec::new();
    let ghost items0 = items@;
    proof {
        assert forall|k: int| 0 <= k < items@.len() implies in_seq(
            #[trigger] items@[k],
            items0,
        ) by {
            assert(items0[k] == items@[k]);
        }
        assert forall|m: int| 0 <= m < items0.len() implies in_seq(
            #[trigger] items0[m],
            items@,
        ) || in_seq(items0[m], sorted@) by {
            assert(items@[m] == items0[m]);
        }
    }
    while items.len() > 0
        invariant
            items@.len() + sorted@.len() == items0.len(),
            forall|k: int| 0 <= k < items@.len() ==> in_seq(#[trigger] items@[k], items0),
            forall|k: int| 0 <= k < sorted@.len() ==> in_seq(#[trigger] sorted@[k], items0),
            forall|m: int|
                0 <= m < items0.len() ==> in_seq(#[trigger] items0[m], items@) || in_seq(
                    items0[m],
                    sorted@,
                ),
            forall|k: int| 0 <= k < items@.len() ==> (#[trigger] items@[k]).score.valid(),
            forall|k: int| 0 <= k < sorted@.len() ==> (#[trigger] sorted@[k]).score.valid(),
            forall|i: int, j: int|
                0 <= i < j < sorted@.len() ==> (#[trigger] sorted@[j]).score.spec_le(
                    (#[trigger] sorted@[i]).score,
                ),
            forall|w: int, o: int|
                (0 <= w < items@.len() && 0 <= o < sorted@.len()) ==> (
                #[trigger] items@[w]).score.spec_le((#[trigger] sorted@[o]).score),
        decreases items@.len(),
    {
        // Find the best remaining item; the earliest wins ties.
        let mut mi: usize = 0;
        let mut j: usize = 1;
        while j < items.len()
            invariant
                items@.len() > 0,
                forall|k: int| 0 <= k < items@.len() ==> (#[trigger] items@[k]).score.valid(),
                mi < j <= items@.len(),
                forall|k: int|
                    0 <= k < j ==> (#[trigger] items@[k]).score.spec_le(items@[mi as int].score),
            decreases items@.len() - j,
        {
            proof {
                crate::score::lemma_le_total(items@[j as int].score, items@[mi as int].score);
            }
            if items[mi].score.lt(&items[j].score) {
                proof {
                    assert forall|k: int| 0 <= k < j + 1 implies (
                    #[trigger] items@[k]).score.spec_le(items@[j as int].score) by {
                        assert(items@[k].score.valid());
                        assert(items@[mi as int].score.valid());
                        assert(items@[j as int].score.valid());
                        if k < j {
                            crate::score::lemma_le_trans(
                                items@[k].score,
                                items@[mi as int].score,
                                items@[j as int].score,
                            );
                        }
                    }
                }
                mi = j;
            }
            j = j + 1;
        }
        let ghost wpre = items@;
        let best = items.remove(mi);
        let ghost spre = sorted@;
        sorted.push(best);
        proof {
            assert(sorted@[sorted@.len() - 1] == wpre[mi as int]);
            assert(forall|k: int| 0 <= k < spre.len() ==> sorted@[k] == spre[k]);
            assert(forall|k: int| 0 <= k < mi ==> #[trigger] items@[k] == wpre[k]);
            assert(forall|k: int|
                mi <= k < items@.len() ==> #[trigger] items@[k] == wpre[k + 1]);
            assert forall|k: int| 0 <= k < items@.len() implies in_seq(
                #[trigger] items@[k],
                items0,
            ) by {
                if k < mi {
                    assert(items@[k] == wpre[k]);
                } else {
                    assert(items@[k] == wpre[k + 1]);
                }
            }
            assert forall|m: int| 0 <= m < items0.len() implies in_seq(
                #[trigger] items0[m],
                items@,
            ) || in_seq(items0[m], sorted@) by {
                if in_seq(items0[m], wpre) {
                    let k0 = choose|k: int| 0 <= k < wpre.len() && wpre[k] == items0[m];
                    if k0 == mi {
                        assert(sorted@[sorted@.len() - 1] == items0[m]);
                    } else if k0 < mi {
                        assert(items@[k0] == items0[m]);
                    } else {
                        assert(items@[k0 - 1] == items0[m]);
                    }
                } else {
                    let k0 = choose|k: int| 0 <= k < spre.len() && spre[k] == items0[m];
                    assert(sorted@[k0] == items0[m]);
                }
            }
        }
    }
    // Truncate to the limit.
    let ghost sorted0 = sorted@;
    let mut out: Vec<PcgwQueryItem> = Vec::new();
    while out.len() < limit && sorted.len() > 0
        invariant
            out@.len() <= limit,
            out@ + sorted@ =~= sorted0,
            out@ == sorted0.take(out@.len() as int),
        decreases sorted@.len(),
    {
        let x = sorted.remove(0);
        out.push(x);
        proof {
            assert(out@ + sorted@ =~= sorted0);
            assert(out@ =~= sorted0.take(out@.len() as int));
        }
    }
    proof {
        let q2 = crate::catalog::exact_query(name@);
        let lim: int = match options.limit {
            Some(l) => l as int,
            None => 20,
        };
        // Length: everything scored survives the sort; truncation clamps
        // at the limit.
        let n = scored_count(index@, qv, options.fuzzy, pv);
        assert(sorted0.len() == n);
        assert(out@.len() == (if n <= lim {
            n
        } else {
            lim
        }));
        // Completeness with the tail bound for dropped entries.
        assert forall|e2: int|
            #[trigger] admitted(index@, e2, qv, options.fuzzy, pv) implies (exists|k: int|
            0 <= k < out@.len() && entry_item(
                #[trigger] out@[k],
                index@[e2],
                qv,
                options.fuzzy,
            )) || (out@.len() == lim && (lim == 0 || query_score(
            index@[e2],
            qv,
            options.fuzzy,
        )->Some_0.0.spec_le(out@[out@.len() - 1].score))) by {
            let kx = choose|k: int|
                0 <= k < items0.len() && entry_item(
                    #[trigger] items0[k],
                    index@[e2],
                    qv,
                    options.fuzzy,
                );
            assert(in_seq(items0[kx], sorted0));
            let ks = choose|k: int| 0 <= k < sorted0.len() && sorted0[k] == items0[kx];
            if ks < out@.len() {
                assert(out@[ks] == sorted0[ks]);
                assert(entry_item(out@[ks], index@[e2], qv, options.fuzzy));
            } else {
                assert(out@.len() == lim);
                if lim >= 1 {
                    if ks > out@.len() - 1 {
                        assert(sorted0[ks].score.spec_le(sorted0[out@.len() - 1].score));
                    }
                    assert(out@[out@.len() - 1] == sorted0[out@.len() - 1]);
                    assert(query_score(index@[e2], qv, options.fuzzy)->Some_0.0 == sorted0[
                    ks].score);
                }
            }
        }
        if lim >= 1 && exists|e2: int|
            0 <= e2 < index@.len() && platform_ok(#[trigger] index@[e2],
                options.platform.deep_view()) && lower_seq(index@[e2].name@) == q2 {
            // Some item scored exactly one, so the sorted head does too.
            let k1 = choose|k: int|
                0 <= k < items0.len() && #[trigger] items0[k].score.same_value(
                    Score { num: 1, den: 1 },
                );
            assert(in_seq(items0[k1], sorted0));
            let ks = choose|k: int| 0 <= k < sorted0.len() && sorted0[k] == items0[k1];
            assert(sorted0.len() > 0);
            if ks > 0 {
                assert(sorted0[ks].score.spec_le(sorted0[0].score));
            }
            assert(out@[0] == sorted0[0]);
            let he = choose|e3: int|
                {
                    &&& 0 <= e3 < index@.len()
                    &&& sorted0[0].info@ == (#[trigger] index@[e3])@
                    &&& platform_ok(index@[e3], options.platform.deep_view())
                    &&& query_score(index@[e3], q2, options.fuzzy) == Some(
                        (sorted0[0].score, sorted0[0].matched_by@),
                    )
                };
            lemma_query_score_le_one(index@[he], q2, options.fuzzy);
            lemma_value_one_le(items0[k1].score, sorted0[0].score);
            assert(sorted0[0].score.same_value(Score { num: 1, den: 1 }));
            lemma_score_one_is_name(index@[he], q2, options.fuzzy);
            assert(lower_seq(out@[0].info.name@) == q2);
        }
    }
    out
}

} // verus!
