//! The save-unit synthesizer: turns the existing save-path matches of one
//! game into per-device path mappings, one record per distinct path.

use vstd::prelude::*;
use crate::backup::SaveUnit;
use crate::backup::SaveUnitType;
use crate::score::Score;
use crate::score::lemma_le_lt_trans;
use crate::score::lemma_le_total;
use crate::score::lemma_le_trans;
use crate::types::SaveMatchResult;

verus! {

/// The single path a synthesized unit maps the device to.
pub open spec fn unit_path(u: SaveUnit) -> Seq<char> {
    u.paths@[0].1@
}

/// A match's selection score: its confidence, plus one tenth when its
/// path looks like a save folder.
pub open spec fn sel_score(c: Score, plausible: bool) -> Score {
    if plausible {
        Score { num: (10 * c.num + c.den) as u64, den: (10 * c.den) as u64 }
    } else {
        c
    }
}

/// Bounds under which the selection score's arithmetic is exact.
pub open spec fn conf_bounded(c: Score) -> bool {
    c.valid() && c.num <= u64::MAX / 16 && c.den <= u64::MAX / 16
}

/// Match `m` decides its path's group: it exists, no match of the group
/// scores higher, and every earlier group member scores strictly lower —
/// the first best wins ties.
pub open spec fn best_for_path(
    matches: Seq<SaveMatchResult>,
    plausible: Seq<bool>,
    m: int,
) -> bool {
    &&& 0 <= m < matches.len()
    &&& matches[m].exists
    &&& forall|k: int|
        (0 <= k < matches.len() && (#[trigger] matches[k]).exists && matches[k].resolved_path@
            == matches[m].resolved_path@) ==> sel_score(
            matches[k].confidence,
            plausible[k],
        ).spec_le(sel_score(matches[m].confidence, plausible[m]))
    &&& forall|k: int|
        (0 <= k < m && (#[trigger] matches[k]).exists && matches[k].resolved_path@
            == matches[m].resolved_path@) ==> sel_score(
            matches[k].confidence,
            plausible[k],
        ).spec_lt(sel_score(matches[m].confidence, plausible[m]))
}

/// Synthesizes save units from one game's matches: only matches whose
/// path exists contribute; each distinct path yields exactly one unit,
/// mapped to the local device; the unit is decided by the group's
/// best-scoring match — confidence plus a tenth when the path looks like
/// a save folder, the first best winning ties — and is classified as
/// file or folder by that match's probe.
pub fn generate_save_units(
    matches: &Vec<SaveMatchResult>,
    plausible: &Vec<bool>,
    is_file: &Vec<bool>,
    device_id: &String,
) -> (r: Vec<SaveUnit>)
    requires
        matches@.len() == plausible@.len(),
        matches@.len() == is_file@.len(),
        forall|m: int| 0 <= m < matches@.len() ==> conf_bounded((#[trigger] matches@[m]).confidence),
    ensures
        // Every unit maps exactly the local device to the path of its
        // group's deciding match, classified as that match's probe says.
        forall|i: int|
            0 <= i < r@.len() ==> {
                &&& (#[trigger] r@[i]).paths@.len() == 1
                &&& crate::backup::unique_keys(r@[i].paths@)
                &&& r@[i].paths@[0].0@ == device_id@
                &&& !r@[i].delete_before_apply
                &&& exists|m: int|
                    {
                        &&& #[trigger] best_for_path(matches@, plausible@, m)
                        &&& matches@[m].resolved_path@ == r@[i].paths@[0].1@
                        &&& (r@[i].unit_type is File <==> is_file@[m])
                    }
            },
        // Never two records for the same path.
        forall|i: int, j: int|
            0 <= i < j < r@.len() ==> unit_path(#[trigger] r@[i]) != unit_path(
                #[trigger] r@[j],
            ),
        // Every existing match's path is represented.
        forall|m: int|
            (0 <= m < matches@.len() && (#[trigger] matches@[m]).exists) ==> exists|i: int|
                0 <= i < r@.len() && unit_path(#[trigger] r@[i]) == matches@[m].resolved_path@,
{
    let mut out: Vec<SaveUnit> = Vec::new();
    let mut m: usize = 0;
    while m < matches.len()
        invariant
            matches@.len() == plausible@.len(),
            matches@.len() == is_file@.len(),
            forall|k: int|
                0 <= k < matches@.len() ==> conf_bounded((#[trigger] matches@[k]).confidence),
            m <= matches@.len(),
            forall|i: int|
                0 <= i < out@.len() ==> {
                    &&& (#[trigger] out@[i]).paths@.len() == 1
                    &&& out@[i].paths@[0].0@ == device_id@
                    &&& !out@[i].delete_before_apply
                    &&& exists|k: int|
                        {
                            &&& #[trigger] best_for_path(matches@, plausible@, k)
                            &&& matches@[k].resolved_path@ == out@[i].paths@[0].1@
                            &&& (out@[i].unit_type is File <==> is_file@[k])
                        }
                },
            forall|i: int, j: int|
                0 <= i < j < out@.len() ==> unit_path(#[trigger] out@[i]) != unit_path(
                    #[trigger] out@[j],
                ),
            forall|k: int|
                (0 <= k < m && (#[trigger] matches@[k]).exists) ==> exists|i: int|
                    0 <= i < out@.len() && unit_path(#[trigger] out@[i])
                        == matches@[k].resolved_path@,
        decreases matches@.len() - m,
    {
        if matches[m].exists {
            // Is this path already represented?
            let mut present = false;
            let mut i: usize = 0;
            while i < out.len() && !present
                invariant
                    forall|ii: int| 0 <= ii < out@.len() ==> (#[trigger] out@[ii]).paths@.len()
                        == 1,
                    i <= out@.len(),
                    m < matches@.len(),
                    !present ==> forall|ii: int|
                        0 <= ii < i ==> unit_path(#[trigger] out@[ii])
                            != matches@[m as int].resolved_path@,
                    present ==> exists|ii: int|
                        0 <= ii < out@.len() && unit_path(#[trigger] out@[ii])
                            == matches@[m as int].resolved_path@,
                decreases out@.len() - i,
            {
                if out[i].paths[0].1.eq(&matches[m].resolved_path) {
                    present = true;
                }
                i = i + 1;
            }
            if !present {
                // No earlier existing match carries this path: it would
                // already stand represented.
                proof {
                    assert forall|k: int|
                        (0 <= k < m && (#[trigger] matches@[k]).exists) implies matches@[
                    k].resolved_path@ != matches@[m as int].resolved_path@ by {
                        let wi = choose|ii: int|
                            0 <= ii < out@.len() && unit_path(#[trigger] out@[ii])
                                == matches@[k].resolved_path@;
                        assert(unit_path(out@[wi]) != matches@[m as int].resolved_path@);
                    }
                }
                // Pick the best-scoring match for this path; the first
                // best wins ties.
                let mut best: usize = m;
                let mut best_score: Score = scored(&matches[m], plausible[m]);
                let mut k: usize = m + 1;
                while k < matches.len()
                    invariant
                        matches@.len() == plausible@.len(),
                        forall|kk: int|
                            0 <= kk < matches@.len() ==> conf_bounded(
                                (#[trigger] matches@[kk]).confidence,
                            ),
                        m < matches@.len(),
                        m <= best < matches@.len(),
                        m < k <= matches@.len(),
                        best < k,
                        matches@[best as int].exists,
                        matches@[best as int].resolved_path@ == matches@[m as int].resolved_path@,
                        best_score == sel_score(
                            matches@[best as int].confidence,
                            plausible@[best as int],
                        ),
                        best_score.valid(),
                        forall|kk: int|
                            (m <= kk < k && (#[trigger] matches@[kk]).exists && matches@[
                            kk].resolved_path@ == matches@[m as int].resolved_path@) ==> sel_score(
                                matches@[kk].confidence,
                                plausible@[kk],
                            ).spec_le(best_score),
                        forall|kk: int|
                            (m <= kk < best && (#[trigger] matches@[kk]).exists && matches@[
                            kk].resolved_path@ == matches@[m as int].resolved_path@)
                                ==> sel_score(
                                matches@[kk].confidence,
                                plausible@[kk],
                            ).spec_lt(best_score),
                    decreases matches@.len() - k,
                {
                    if matches[k].exists && matches[k].resolved_path.eq(
                        &matches[m].resolved_path,
                    ) {
                        let sc = scored(&matches[k], plausible[k]);
                        proof {
                            lemma_le_total(sc, best_score);
                        }
                        if best_score.lt(&sc) {
                            proof {
                                assert forall|kk: int|
                                    (m <= kk < k && (#[trigger] matches@[kk]).exists && matches@[
                                    kk].resolved_path@ == matches@[m as int].resolved_path@)
                                        implies sel_score(
                                    matches@[kk].confidence,
                                    plausible@[kk],
                                ).spec_lt(sc) by {
                                    lemma_le_lt_trans(
                                        sel_score(matches@[kk].confidence, plausible@[kk]),
                                        best_score,
                                        sc,
                                    );
                                }
                            }
                            best = k;
                            best_score = sc;
                        }
                    }
                    k = k + 1;
                }
                proof {
                    assert(best_for_path(matches@, plausible@, best as int));
                }
                let unit_type = if is_file[best] {
                    SaveUnitType::File
                } else {
                    SaveUnitType::Folder
                };
                let mut paths: Vec<(String, String)> = Vec::new();
                paths.push((device_id.clone(), matches[best].resolved_path.clone()));
                let u = SaveUnit { unit_type, paths, delete_before_apply: false };
                proof {
                    assert(u.paths@.len() == 1);
                    assert(unit_path(u) == matches@[m as int].resolved_path@);
                }
                let ghost opre = out@;
                out.push(u);
                proof {
                    assert(forall|ii: int| 0 <= ii < opre.len() ==> out@[ii] == opre[ii]);
                    assert(unit_path(out@[out@.len() - 1]) == matches@[m as int].resolved_path@);
                    assert(best_for_path(matches@, plausible@, best as int) && matches@[
                    best as int].resolved_path@ == unit_path(out@[out@.len() - 1]) && (out@[
                    out@.len() - 1].unit_type is File <==> is_file@[best as int]));
                    assert forall|kk: int|
                        (0 <= kk < m + 1 && (#[trigger] matches@[kk]).exists) implies exists|
                    ii: int|
                        0 <= ii < out@.len() && unit_path(#[trigger] out@[ii])
                            == matches@[kk].resolved_path@ by {
                        if kk < m {
                            let wi = choose|ii: int|
                                0 <= ii < opre.len() && unit_path(#[trigger] opre[ii])
                                    == matches@[kk].resolved_path@;
                            assert(unit_path(out@[wi]) == matches@[kk].resolved_path@);
                        } else {
                            assert(unit_path(out@[out@.len() - 1])
                                == matches@[kk].resolved_path@);
                        }
                    }
                }
            }
        }
        m = m + 1;
    }
    out
}

/// Computes a match's selection score.
fn scored(m: &SaveMatchResult, plausible: bool) -> (r: Score)
    requires
        conf_bounded(m.confidence),
    ensures
        r == sel_score(m.confidence, plausible),
        r.valid(),
{
    if plausible {
        m.confidence.plus_tenth()
    } else {
        m.confidence
    }
}

} // verus!
