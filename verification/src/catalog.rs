//! The reference catalog: exact lookup, and the heuristic import that
//! builds catalog entries from a generic row/column data source.
//!
//! The import is explicitly lossy: it takes the first table exposing a
//! name-like column, opportunistically captures alias-like and
//! localized-name columns as extra aliases, and turns any column whose
//! name suggests a filesystem path into a synthetic save rule of moderate
//! confidence. Reading the rows from their store is the caller's business;
//! this module only decides what they mean.

use vstd::prelude::*;
use crate::score::Score;
use crate::strutil::chars_to_string;
use crate::strutil::contains_chars;
use crate::strutil::contains_seq;
use crate::strutil::eq_chars_str;
use crate::strutil::extend_chars;
use crate::strutil::lower_seq;
use crate::strutil::replace_all;
use crate::strutil::replace_chars;
use crate::strutil::to_chars;
use crate::strutil::to_lower;
use crate::strutil::trim_chars;
use crate::strutil::trim_spec;
use crate::types::GameInfo;
use crate::types::SavePathRule;

verus! {

// ------------------------------------------------------------------
// Exact lookup.
// ------------------------------------------------------------------

/// The entry's canonical name equals the query, case-insensitively.
pub open spec fn name_matches(g: GameInfo, q: Seq<char>) -> bool {
    lower_seq(g.name@) == q
}

/// Some alias of the entry equals the query, case-insensitively.
pub open spec fn alias_matches(g: GameInfo, q: Seq<char>) -> bool {
    exists|i: int| 0 <= i < g.aliases@.len() && lower_seq(g.aliases@[i]@) == q
}

/// The entry matches the query exactly, by name or by alias.
pub open spec fn exact_match(g: GameInfo, q: Seq<char>) -> bool {
    name_matches(g, q) || alias_matches(g, q)
}

/// The query as lookup normalizes it: trimmed and lower-cased.
pub open spec fn exact_query(name: Seq<char>) -> Seq<char> {
    lower_seq(trim_spec(name))
}

/// Whether the entry matches the already-normalized query.
fn entry_matches_exact(g: &GameInfo, q: &Vec<char>) -> (r: bool)
    ensures
        r == exact_match(*g, q@),
{
    let name_chars = to_chars(g.name.as_str());
    let name_l = to_lower(&name_chars);
    if crate::strutil::eq_chars(&name_l, q) {
        return true;
    }
    let mut i: usize = 0;
    while i < g.aliases.len()
        invariant
            i <= g.aliases@.len(),
            forall|k: int| 0 <= k < i ==> lower_seq(g.aliases@[k]@) != q@,
        decreases g.aliases@.len() - i,
    {
        let a_chars = to_chars(g.aliases[i].as_str());
        let a_l = to_lower(&a_chars);
        if crate::strutil::eq_chars(&a_l, q) {
            return true;
        }
        i = i + 1;
    }
    false
}

/// Finds a game by name or alias: case-insensitive, ignoring surrounding
/// whitespace; the first matching entry wins.
pub fn find_by_name<'a>(index: &'a Vec<GameInfo>, name: &str) -> (r: Option<&'a GameInfo>)
    ensures
        match r {
            Some(g) => exists|i: int|
                {
                    &&& 0 <= i < index@.len()
                    &&& g == &index@[i]
                    &&& exact_match(index@[i], exact_query(name@))
                    &&& forall|k: int| 0 <= k < i ==> !exact_match(index@[k], exact_query(name@))
                },
            None => forall|k: int|
                0 <= k < index@.len() ==> !exact_match(index@[k], exact_query(name@)),
        },
{
    let name_chars = to_chars(name);
    let trimmed = trim_chars(&name_chars);
    let q = to_lower(&trimmed);
    let mut i: usize = 0;
    while i < index.len()
        invariant
            i <= index@.len(),
            q@ == exact_query(name@),
            forall|k: int| 0 <= k < i ==> !exact_match(index@[k], exact_query(name@)),
        decreases index@.len() - i,
    {
        if entry_matches_exact(&index[i], &q) {
            return Some(&index[i]);
        }
        i = i + 1;
    }
    None
}

// ------------------------------------------------------------------
// Alias splitting.
// ------------------------------------------------------------------

/// A character that separates aliases.
pub open spec fn is_alias_sep(c: char) -> bool {
    c == ',' || c == '|'
}

/// The raw pieces of an alias string, split on the separators; `acc` is
/// the piece under construction.
pub open spec fn split_pieces(s: Seq<char>, acc: Seq<char>) -> Seq<Seq<char>>
    decreases s.len(),
{
    if s.len() == 0 {
        seq![acc]
    } else if is_alias_sep(s[0]) {
        seq![acc] + split_pieces(s.drop_first(), Seq::empty())
    } else {
        split_pieces(s.drop_first(), acc.push(s[0]))
    }
}

/// Each piece trimmed, empty pieces dropped.
pub open spec fn clean_pieces(ps: Seq<Seq<char>>) -> Seq<Seq<char>>
    decreases ps.len(),
{
    if ps.len() == 0 {
        Seq::empty()
    } else {
        let t = trim_spec(ps[0]);
        let rest = clean_pieces(ps.drop_first());
        if t.len() > 0 {
            seq![t] + rest
        } else {
            rest
        }
    }
}

/// What an alias string yields: its separator-delimited pieces, trimmed,
/// with empty pieces dropped.
pub open spec fn split_aliases_spec(s: Seq<char>) -> Seq<Seq<char>> {
    clean_pieces(split_pieces(s, Seq::empty()))
}

/// Splits an alias string on commas and pipes, trimming each piece and
/// dropping empty ones.
pub fn split_aliases(s: &str) -> (r: Vec<String>)
    ensures
        r.deep_view() == split_aliases_spec(s@),
{
    let chars = to_chars(s);
    let n: usize = chars.len();
    let mut out: Vec<String> = Vec::new();
    let mut acc: Vec<char> = Vec::new();
    let mut i: usize = 0;
    proof {
        assert(chars@.skip(0) =~= chars@);
        assert(out.deep_view() =~= Seq::<Seq<char>>::empty());
        assert(Seq::<Seq<char>>::empty() + split_aliases_spec(s@) =~= split_aliases_spec(s@));
    }
    while i < n
        invariant
            n == chars@.len(),
            chars@ == s@,
            i <= n,
            split_aliases_spec(s@) == out.deep_view() + clean_pieces(
                split_pieces(chars@.skip(i as int), acc@),
            ),
        decreases n - i,
    {
        let ghost rest = chars@.skip(i as int);
        proof {
            assert(rest.drop_first() =~= chars@.skip(i + 1));
        }
        let c = chars[i];
        if c == ',' || c == '|' {
            let ghost pieces = split_pieces(rest, acc@);
            let ghost tailp = split_pieces(chars@.skip(i + 1), Seq::empty());
            proof {
                assert(pieces == seq![acc@] + tailp);
                assert(pieces[0] == acc@);
                assert(pieces.drop_first() =~= tailp);
                assert(clean_pieces(pieces) == if trim_spec(acc@).len() > 0 {
                    seq![trim_spec(acc@)] + clean_pieces(tailp)
                } else {
                    clean_pieces(tailp)
                });
            }
            let t = trim_chars(&acc);
            if t.len() > 0 {
                let ghost pre = out.deep_view();
                out.push(chars_to_string(&t));
                proof {
                    assert(out.deep_view() =~= pre.push(t@));
                    assert(pre + (seq![t@] + clean_pieces(tailp)) =~= (pre + seq![t@])
                        + clean_pieces(tailp));
                    assert(pre.push(t@) =~= pre + seq![t@]);
                }
            }
            acc = Vec::new();
        } else {
            acc.push(c);
            proof {
                assert(!is_alias_sep(rest[0]));
                assert(split_pieces(rest, acc@.drop_last()) == split_pieces(
                    rest.drop_first(),
                    acc@.drop_last().push(rest[0]),
                ));
                assert(acc@.drop_last().push(rest[0]) =~= acc@);
            }
        }
        i = i + 1;
    }
    proof {
        assert(chars@.skip(n as int) =~= Seq::<char>::empty());
        assert(split_pieces(Seq::<char>::empty(), acc@) == seq![acc@]);
        assert(seq![acc@].drop_first() =~= Seq::<Seq<char>>::empty());
        assert(clean_pieces(Seq::<Seq<char>>::empty()) == Seq::<Seq<char>>::empty());
        assert(clean_pieces(seq![acc@]) == if trim_spec(acc@).len() > 0 {
            seq![trim_spec(acc@)] + Seq::<Seq<char>>::empty()
        } else {
            Seq::<Seq<char>>::empty()
        });
    }
    let t = trim_chars(&acc);
    if t.len() > 0 {
        let ghost pre = out.deep_view();
        out.push(chars_to_string(&t));
        proof {
            assert(out.deep_view() =~= pre.push(t@));
            assert(pre.push(t@) =~= pre + seq![t@]);
            assert(seq![t@] + Seq::<Seq<char>>::empty() =~= seq![t@]);
            assert(split_aliases_spec(s@) == pre + seq![t@]);
            assert(out.deep_view() == pre + seq![t@]);
        }
    } else {
        proof {
            assert(out.deep_view() + Seq::<Seq<char>>::empty() =~= out.deep_view());
            assert(split_aliases_spec(s@) == out.deep_view());
        }
    }
    out
}

// ------------------------------------------------------------------
// Template normalization for imported path columns.
// ------------------------------------------------------------------

/// An imported path, rewritten onto the resolver's placeholders: user
/// profile and user name references become `<home>` / `<osUserName>`,
/// documents paths are anchored at `<home>`, and roaming AppData becomes
/// `<winAppData>`.
pub open spec fn normalize_template_spec(p: Seq<char>) -> Seq<char> {
    let s0 = trim_spec(p);
    let s1 = if contains_seq(s0, "\\Documents\\"@) || contains_seq(s0, "/Documents/"@) {
        let a = replace_all(s0, "%USERPROFILE%"@, "<home>"@);
        let b = replace_all(a, "C:/Users/%USERNAME%"@, "<home>"@);
        let c = replace_all(b, "%USERNAME%"@, "<osUserName>"@);
        if !contains_seq(lower_seq(c), "<home>"@) {
            if c.len() > 0 && c[0] == '/' {
                "<home>"@ + c
            } else {
                "<home>"@ + seq!['/'] + c
            }
        } else {
            c
        }
    } else {
        s0
    };
    if contains_seq(s1, "AppData"@) {
        let d = replace_all(s1, "%APPDATA%"@, "<winAppData>"@);
        replace_all(d, "C:/Users/%USERNAME%/AppData/Roaming"@, "<winAppData>"@)
    } else {
        s1
    }
}

/// Rewrites an imported path onto the resolver's placeholders.
pub fn normalize_path_template(p: &str) -> (r: String)
    ensures
        r@ == normalize_template_spec(p@),
{
    let chars = to_chars(p);
    let s0 = trim_chars(&chars);
    let docs_bs = to_chars("\\Documents\\");
    let docs_fs = to_chars("/Documents/");
    let s1: Vec<char> = if contains_chars(&s0, &docs_bs) || contains_chars(&s0, &docs_fs) {
        let up = to_chars("%USERPROFILE%");
        let home = to_chars("<home>");
        proof {
            reveal_strlit("%USERPROFILE%");
        }
        let a = replace_chars(&s0, &up, &home);
        let cu = to_chars("C:/Users/%USERNAME%");
        proof {
            reveal_strlit("C:/Users/%USERNAME%");
        }
        let b = replace_chars(&a, &cu, &home);
        let un = to_chars("%USERNAME%");
        let osu = to_chars("<osUserName>");
        proof {
            reveal_strlit("%USERNAME%");
        }
        let c = replace_chars(&b, &un, &osu);
        let c_low = to_lower(&c);
        if !contains_chars(&c_low, &home) {
            let mut out: Vec<char> = to_chars("<home>");
            if c.len() > 0 && c[0] == '/' {
                extend_chars(&mut out, &c);
                proof {
                    assert(out@ =~= "<home>"@ + c@);
                }
            } else {
                out.push('/');
                extend_chars(&mut out, &c);
                proof {
                    assert(out@ =~= "<home>"@ + seq!['/'] + c@);
                }
            }
            out
        } else {
            c
        }
    } else {
        s0
    };
    let appdata = to_chars("AppData");
    if contains_chars(&s1, &appdata) {
        let pa = to_chars("%APPDATA%");
        let wad = to_chars("<winAppData>");
        proof {
            reveal_strlit("%APPDATA%");
        }
        let d = replace_chars(&s1, &pa, &wad);
        let cur = to_chars("C:/Users/%USERNAME%/AppData/Roaming");
        proof {
            reveal_strlit("C:/Users/%USERNAME%/AppData/Roaming");
        }
        let e = replace_chars(&d, &cur, &wad);
        chars_to_string(&e)
    } else {
        chars_to_string(&s1)
    }
}

// ------------------------------------------------------------------
// Import from a generic row/column source.
// ------------------------------------------------------------------

/// A table of the foreign source: its name and its column names.
#[derive(Debug, Clone)]
pub struct TableInfo {
    pub name: String,
    pub columns: Vec<String>,
}

/// A column that holds the record's name.
pub open spec fn is_name_col(c: Seq<char>) -> bool {
    lower_seq(c) == "name"@ || lower_seq(c) == "title"@
}

/// A column that holds aliases.
pub open spec fn is_alias_col(c: Seq<char>) -> bool {
    lower_seq(c) == "aliases"@ || lower_seq(c) == "alias"@ || lower_seq(c) == "aka"@
}

/// A column that holds a localized (Chinese) name.
pub open spec fn is_zh_col(c: Seq<char>) -> bool {
    let l = lower_seq(c);
    l == "zh_cn"@ || l == "zh-cn"@ || l == "zh"@ || contains_seq(l, "name_zh"@) || contains_seq(
        l,
        "chinese"@,
    )
}

/// A column that holds an external catalog identifier.
pub open spec fn is_pcgw_col(c: Seq<char>) -> bool {
    lower_seq(c) == "pcgw_id"@ || lower_seq(c) == "slug"@ || lower_seq(c) == "wiki_id"@
        || lower_seq(c) == "pcgw"@
}

/// A column whose name suggests a filesystem path.
pub open spec fn is_path_col(c: Seq<char>) -> bool {
    let l = lower_seq(c);
    contains_seq(l, "path"@) || contains_seq(l, "save"@) || contains_seq(l, "location"@)
        || contains_seq(l, "documents"@)
}

/// First name-like column, if any.
pub open spec fn name_col_of(cols: Seq<Seq<char>>) -> Option<int>
    decreases cols.len(),
{
    if cols.len() == 0 {
        None
    } else if is_name_col(cols[0]) {
        Some(0)
    } else {
        match name_col_of(cols.drop_first()) {
            Some(i) => Some(i + 1),
            None => None,
        }
    }
}

/// First alias-like column, if any.
pub open spec fn alias_col_of(cols: Seq<Seq<char>>) -> Option<int>
    decreases cols.len(),
{
    if cols.len() == 0 {
        None
    } else if is_alias_col(cols[0]) {
        Some(0)
    } else {
        match alias_col_of(cols.drop_first()) {
            Some(i) => Some(i + 1),
            None => None,
        }
    }
}

/// First localized-name column, if any.
pub open spec fn zh_col_of(cols: Seq<Seq<char>>) -> Option<int>
    decreases cols.len(),
{
    if cols.len() == 0 {
        None
    } else if is_zh_col(cols[0]) {
        Some(0)
    } else {
        match zh_col_of(cols.drop_first()) {
            Some(i) => Some(i + 1),
            None => None,
        }
    }
}

/// First external-identifier column, if any.
pub open spec fn pcgw_col_of(cols: Seq<Seq<char>>) -> Option<int>
    decreases cols.len(),
{
    if cols.len() == 0 {
        None
    } else if is_pcgw_col(cols[0]) {
        Some(0)
    } else {
        match pcgw_col_of(cols.drop_first()) {
            Some(i) => Some(i + 1),
            None => None,
        }
    }
}

/// All path-like column indices, in order.
pub open spec fn path_cols_of(cols: Seq<Seq<char>>) -> Seq<int>
    decreases cols.len(),
{
    if cols.len() == 0 {
        Seq::empty()
    } else {
        let pre = path_cols_of(cols.drop_last());
        if is_path_col(cols.last()) {
            pre.push(cols.len() - 1)
        } else {
            pre
        }
    }
}

/// The value of `row` at an optional column index, absent when the index
/// is absent, out of range, or the cell is NULL.
pub open spec fn cell(row: Seq<Option<Seq<char>>>, idx: Option<int>) -> Option<Seq<char>> {
    match idx {
        Some(i) => if 0 <= i < row.len() {
            row[i]
        } else {
            None
        },
        None => None,
    }
}

/// The record's raw name: the name cell, or empty.
pub open spec fn row_name(cols: Seq<Seq<char>>, row: Seq<Option<Seq<char>>>) -> Seq<char> {
    match cell(row, name_col_of(cols)) {
        Some(s) => s,
        None => Seq::empty(),
    }
}

/// A row is kept when its trimmed name is non-empty.
pub open spec fn row_kept(cols: Seq<Seq<char>>, row: Seq<Option<Seq<char>>>) -> bool {
    trim_spec(row_name(cols, row)).len() > 0
}

/// Some existing alias equals `z`, ASCII-case-insensitively.
pub open spec fn has_alias_ci(aliases: Seq<Seq<char>>, z: Seq<char>) -> bool {
    exists|i: int| 0 <= i < aliases.len() && lower_seq(aliases[i]) == lower_seq(z)
}

/// The record's aliases: the alias cell split, plus the trimmed localized
/// name if it is new.
pub open spec fn row_aliases(cols: Seq<Seq<char>>, row: Seq<Option<Seq<char>>>) -> Seq<
    Seq<char>,
> {
    let base = match cell(row, alias_col_of(cols)) {
        Some(s) => split_aliases_spec(s),
        None => Seq::empty(),
    };
    match cell(row, zh_col_of(cols)) {
        Some(z) => {
            let zt = trim_spec(z);
            if zt.len() > 0 && !has_alias_ci(base, zt) {
                base.push(zt)
            } else {
                base
            }
        },
        None => base,
    }
}

/// The record's external identifier, if any.
pub open spec fn row_pcgw(cols: Seq<Seq<char>>, row: Seq<Option<Seq<char>>>) -> Option<
    Seq<char>,
> {
    cell(row, pcgw_col_of(cols))
}

/// The identifier of a synthetic save rule: the record name with spaces
/// replaced by underscores, a dash, and the column name.
pub open spec fn rule_id_of(name: Seq<char>, col: Seq<char>) -> Seq<char> {
    replace_all(name, seq![' '], seq!['_']) + seq!['-'] + col
}

/// The description of a synthetic save rule.
pub open spec fn rule_desc_of(table: Seq<char>, col: Seq<char>) -> Seq<char> {
    "Imported from "@ + table + seq!['.'] + col
}

/// The synthetic save rules of a row: (id, description, template) for
/// each non-empty path-like cell, over the given index list.
pub open spec fn rules_from(
    table: Seq<char>,
    name: Seq<char>,
    cols: Seq<Seq<char>>,
    row: Seq<Option<Seq<char>>>,
    idxs: Seq<int>,
) -> Seq<(Seq<char>, Seq<char>, Seq<char>)>
    decreases idxs.len(),
{
    if idxs.len() == 0 {
        Seq::empty()
    } else {
        let pre = rules_from(table, name, cols, row, idxs.drop_last());
        let i = idxs.last();
        let v = if 0 <= i < row.len() {
            row[i]
        } else {
            None
        };
        match v {
            Some(val) => if trim_spec(val).len() > 0 && 0 <= i < cols.len() {
                pre.push(
                    (rule_id_of(name, cols[i]), rule_desc_of(table, cols[i]), normalize_template_spec(
                        val,
                    )),
                )
            } else {
                pre
            },
            None => pre,
        }
    }
}

/// The synthetic save rules of a row.
pub open spec fn row_rules(
    table: Seq<char>,
    cols: Seq<Seq<char>>,
    row: Seq<Option<Seq<char>>>,
) -> Seq<(Seq<char>, Seq<char>, Seq<char>)> {
    rules_from(table, row_name(cols, row), cols, row, path_cols_of(cols))
}

/// One synthetic save rule agrees with its description: moderate
/// confidence, tagged for Windows, no prerequisites.
pub open spec fn rule_matches(r: SavePathRule, t: (Seq<char>, Seq<char>, Seq<char>)) -> bool {
    &&& r.id@ == t.0
    &&& r.description.deep_view() == Some(t.1)
    &&& r.path_template@ == t.2
    &&& r.requires is None
    &&& r.platforms.deep_view() =~= seq!["windows"@]
    &&& r.confidence.num == 3
    &&& r.confidence.den == 5
}

/// All rules agree, pointwise.
pub open spec fn rules_match(
    rules: Seq<SavePathRule>,
    specs: Seq<(Seq<char>, Seq<char>, Seq<char>)>,
) -> bool {
    &&& rules.len() == specs.len()
    &&& forall|j: int| 0 <= j < rules.len() ==> rule_matches(rules[j], specs[j])
}

/// A built entry agrees with its row.
pub open spec fn game_matches_row(
    g: GameInfo,
    table: Seq<char>,
    cols: Seq<Seq<char>>,
    row: Seq<Option<Seq<char>>>,
) -> bool {
    &&& g.name@ == row_name(cols, row)
    &&& g.aliases.deep_view() == row_aliases(cols, row)
    &&& g.pcgw_id.deep_view() == row_pcgw(cols, row)
    &&& g.install_rules@.len() == 0
    &&& rules_match(g.save_rules@, row_rules(table, cols, row))
}

/// The rows that survive the name check, in order.
pub open spec fn kept_rows(
    cols: Seq<Seq<char>>,
    rows: Seq<Seq<Option<Seq<char>>>>,
) -> Seq<Seq<Option<Seq<char>>>>
    decreases rows.len(),
{
    if rows.len() == 0 {
        Seq::empty()
    } else {
        let pre = kept_rows(cols, rows.drop_last());
        if row_kept(cols, rows.last()) {
            pre.push(rows.last())
        } else {
            pre
        }
    }
}

/// An optional machine index as an optional mathematical one.
pub open spec fn oidx(o: Option<usize>) -> Option<int> {
    match o {
        Some(u) => Some(u as int),
        None => None,
    }
}

/// Whether the column holds names.
fn is_name_col_exec(c: &String) -> (r: bool)
    ensures
        r == is_name_col(c@),
{
    let l = to_lower(&to_chars(c.as_str()));
    eq_chars_str(&l, "name") || eq_chars_str(&l, "title")
}

/// Whether the column holds aliases.
fn is_alias_col_exec(c: &String) -> (r: bool)
    ensures
        r == is_alias_col(c@),
{
    let l = to_lower(&to_chars(c.as_str()));
    eq_chars_str(&l, "aliases") || eq_chars_str(&l, "alias") || eq_chars_str(&l, "aka")
}

/// Whether the column holds a localized name.
fn is_zh_col_exec(c: &String) -> (r: bool)
    ensures
        r == is_zh_col(c@),
{
    let l = to_lower(&to_chars(c.as_str()));
    if eq_chars_str(&l, "zh_cn") || eq_chars_str(&l, "zh-cn") || eq_chars_str(&l, "zh") {
        return true;
    }
    let nz = to_chars("name_zh");
    let ch = to_chars("chinese");
    contains_chars(&l, &nz) || contains_chars(&l, &ch)
}

/// Whether the column holds an external identifier.
fn is_pcgw_col_exec(c: &String) -> (r: bool)
    ensures
        r == is_pcgw_col(c@),
{
    let l = to_lower(&to_chars(c.as_str()));
    eq_chars_str(&l, "pcgw_id") || eq_chars_str(&l, "slug") || eq_chars_str(&l, "wiki_id")
        || eq_chars_str(&l, "pcgw")
}

/// Whether the column suggests a path.
fn is_path_col_exec(c: &String) -> (r: bool)
    ensures
        r == is_path_col(c@),
{
    let l = to_lower(&to_chars(c.as_str()));
    let p = to_chars("path");
    let s = to_chars("save");
    let lo = to_chars("location");
    let d = to_chars("documents");
    contains_chars(&l, &p) || contains_chars(&l, &s) || contains_chars(&l, &lo) || contains_chars(
        &l,
        &d,
    )
}

/// The views of a string vector's elements, for indexing proofs.
proof fn lemma_deep_view_index(v: Vec<String>, i: int)
    requires
        0 <= i < v@.len(),
    ensures
        v.deep_view()[i] == v@[i]@,
        v.deep_view().len() == v@.len(),
{
}

/// `name_col_of` names the first name-like column.
proof fn lemma_name_col_of(cols: Seq<Seq<char>>)
    ensures
        match name_col_of(cols) {
            Some(i) => 0 <= i < cols.len() && is_name_col(cols[i]) && forall|k: int|
                0 <= k < i ==> !is_name_col(cols[k]),
            None => forall|k: int| 0 <= k < cols.len() ==> !is_name_col(cols[k]),
        },
    decreases cols.len(),
{
    if cols.len() > 0 && !is_name_col(cols[0]) {
        lemma_name_col_of(cols.drop_first());
        assert(forall|k: int| 1 <= k < cols.len() ==> cols[k] == cols.drop_first()[k - 1]);
    }
}

/// `alias_col_of` names the first alias-like column.
proof fn lemma_alias_col_of(cols: Seq<Seq<char>>)
    ensures
        match alias_col_of(cols) {
            Some(i) => 0 <= i < cols.len() && is_alias_col(cols[i]) && forall|k: int|
                0 <= k < i ==> !is_alias_col(cols[k]),
            None => forall|k: int| 0 <= k < cols.len() ==> !is_alias_col(cols[k]),
        },
    decreases cols.len(),
{
    if cols.len() > 0 && !is_alias_col(cols[0]) {
        lemma_alias_col_of(cols.drop_first());
        assert(forall|k: int| 1 <= k < cols.len() ==> cols[k] == cols.drop_first()[k - 1]);
    }
}

/// `zh_col_of` names the first localized-name column.
proof fn lemma_zh_col_of(cols: Seq<Seq<char>>)
    ensures
        match zh_col_of(cols) {
            Some(i) => 0 <= i < cols.len() && is_zh_col(cols[i]) && forall|k: int|
                0 <= k < i ==> !is_zh_col(cols[k]),
            None => forall|k: int| 0 <= k < cols.len() ==> !is_zh_col(cols[k]),
        },
    decreases cols.len(),
{
    if cols.len() > 0 && !is_zh_col(cols[0]) {
        lemma_zh_col_of(cols.drop_first());
        assert(forall|k: int| 1 <= k < cols.len() ==> cols[k] == cols.drop_first()[k - 1]);
    }
}

/// `pcgw_col_of` names the first identifier column.
proof fn lemma_pcgw_col_of(cols: Seq<Seq<char>>)
    ensures
        match pcgw_col_of(cols) {
            Some(i) => 0 <= i < cols.len() && is_pcgw_col(cols[i]) && forall|k: int|
                0 <= k < i ==> !is_pcgw_col(cols[k]),
            None => forall|k: int| 0 <= k < cols.len() ==> !is_pcgw_col(cols[k]),
        },
    decreases cols.len(),
{
    if cols.len() > 0 && !is_pcgw_col(cols[0]) {
        lemma_pcgw_col_of(cols.drop_first());
        assert(forall|k: int| 1 <= k < cols.len() ==> cols[k] == cols.drop_first()[k - 1]);
    }
}

/// Finds the first name-like column.
fn find_name_col(cols: &Vec<String>) -> (r: Option<usize>)
    ensures
        oidx(r) == name_col_of(cols.deep_view()),
{
    let ghost cv = cols.deep_view();
    proof {
        lemma_name_col_of(cv);
    }
    let mut i: usize = 0;
    while i < cols.len()
        invariant
            cv == cols.deep_view(),
            i <= cols@.len(),
            cv.len() == cols@.len(),
            forall|k: int| 0 <= k < i ==> !is_name_col(cv[k]),
        decreases cols@.len() - i,
    {
        proof {
            lemma_deep_view_index(*cols, i as int);
        }
        if is_name_col_exec(&cols[i]) {
            proof {
                lemma_name_col_of(cv);
                match name_col_of(cv) {
                    Some(m) => {
                        if m < i {
                            assert(!is_name_col(cv[m]));
                        }
                        if m > i {
                            assert(!is_name_col(cv[i as int]));
                        }
                    },
                    None => {
                        assert(!is_name_col(cv[i as int]));
                    },
                }
            }
            return Some(i);
        }
        i = i + 1;
    }
    None
}

/// Finds the first alias-like column.
fn find_alias_col(cols: &Vec<String>) -> (r: Option<usize>)
    ensures
        oidx(r) == alias_col_of(cols.deep_view()),
{
    let ghost cv = cols.deep_view();
    proof {
        lemma_alias_col_of(cv);
    }
    let mut i: usize = 0;
    while i < cols.len()
        invariant
            cv == cols.deep_view(),
            i <= cols@.len(),
            cv.len() == cols@.len(),
            forall|k: int| 0 <= k < i ==> !is_alias_col(cv[k]),
        decreases cols@.len() - i,
    {
        proof {
            lemma_deep_view_index(*cols, i as int);
        }
        if is_alias_col_exec(&cols[i]) {
            proof {
                lemma_alias_col_of(cv);
                match alias_col_of(cv) {
                    Some(m) => {
                        if m < i {
                            assert(!is_alias_col(cv[m]));
                        }
                        if m > i {
                            assert(!is_alias_col(cv[i as int]));
                        }
                    },
                    None => {
                        assert(!is_alias_col(cv[i as int]));
                    },
                }
            }
            return Some(i);
        }
        i = i + 1;
    }
    None
}

/// Finds the first localized-name column.
fn find_zh_col(cols: &Vec<String>) -> (r: Option<usize>)
    ensures
        oidx(r) == zh_col_of(cols.deep_view()),
{
    let ghost cv = cols.deep_view();
    proof {
        lemma_zh_col_of(cv);
    }
    let mut i: usize = 0;
    while i < cols.len()
        invariant
            cv == cols.deep_view(),
            i <= cols@.len(),
            cv.len() == cols@.len(),
            forall|k: int| 0 <= k < i ==> !is_zh_col(cv[k]),
        decreases cols@.len() - i,
    {
        proof {
            lemma_deep_view_index(*cols, i as int);
        }
        if is_zh_col_exec(&cols[i]) {
            proof {
                lemma_zh_col_of(cv);
                match zh_col_of(cv) {
                    Some(m) => {
                        if m < i {
                            assert(!is_zh_col(cv[m]));
                        }
                        if m > i {
                            assert(!is_zh_col(cv[i as int]));
                        }
                    },
                    None => {
                        assert(!is_zh_col(cv[i as int]));
                    },
                }
            }
            return Some(i);
        }
        i = i + 1;
    }
    None
}

/// Finds the first identifier column.
fn find_pcgw_col(cols: &Vec<String>) -> (r: Option<usize>)
    ensures
        oidx(r) == pcgw_col_of(cols.deep_view()),
{
    let ghost cv = cols.deep_view();
    proof {
        lemma_pcgw_col_of(cv);
    }
    let mut i: usize = 0;
    while i < cols.len()
        invariant
            cv == cols.deep_view(),
            i <= cols@.len(),
            cv.len() == cols@.len(),
            forall|k: int| 0 <= k < i ==> !is_pcgw_col(cv[k]),
        decreases cols@.len() - i,
    {
        proof {
            lemma_deep_view_index(*cols, i as int);
        }
        if is_pcgw_col_exec(&cols[i]) {
            proof {
                lemma_pcgw_col_of(cv);
                match pcgw_col_of(cv) {
                    Some(m) => {
                        if m < i {
                            assert(!is_pcgw_col(cv[m]));
                        }
                        if m > i {
                            assert(!is_pcgw_col(cv[i as int]));
                        }
                    },
                    None => {
                        assert(!is_pcgw_col(cv[i as int]));
                    },
                }
            }
            return Some(i);
        }
        i = i + 1;
    }
    None
}

/// Collects the path-like column indices, in order.
fn find_path_cols(cols: &Vec<String>) -> (r: Vec<usize>)
    ensures
        r@.map_values(|u: usize| u as int) == path_cols_of(cols.deep_view()),
        forall|j: int| 0 <= j < r@.len() ==> r@[j] < cols@.len(),
{
    let ghost cv = cols.deep_view();
    let mut out: Vec<usize> = Vec::new();
    let mut i: usize = 0;
    proof {
        assert(out@.map_values(|u: usize| u as int) =~= path_cols_of(cv.take(0)));
    }
    while i < cols.len()
        invariant
            cv == cols.deep_view(),
            i <= cols@.len(),
            cv.len() == cols@.len(),
            out@.map_values(|u: usize| u as int) == path_cols_of(cv.take(i as int)),
            forall|j: int| 0 <= j < out@.len() ==> out@[j] < cols@.len(),
        decreases cols@.len() - i,
    {
        proof {
            lemma_deep_view_index(*cols, i as int);
            assert(cv.take(i + 1).drop_last() =~= cv.take(i as int));
            assert(cv.take(i + 1).last() == cv[i as int]);
        }
        if is_path_col_exec(&cols[i]) {
            out.push(i);
            proof {
                assert(out@.map_values(|u: usize| u as int) =~= path_cols_of(
                    cv.take(i as int),
                ).push(i as int));
            }
        }
        i = i + 1;
    }
    proof {
        assert(cv.take(cv.len() as int) =~= cv);
    }
    out
}

/// The cell of a row at an optional index.
fn get_cell<'a>(row: &'a Vec<Option<String>>, idx: &Option<usize>) -> (r: Option<&'a String>)
    ensures
        match r {
            Some(s) => cell(row.deep_view(), oidx(*idx)) == Some(s@),
            None => cell(row.deep_view(), oidx(*idx)) is None,
        },
{
    match idx {
        Some(i) => {
            if *i < row.len() {
                proof {
                    assert(row.deep_view()[*i as int] == row@[*i as int].deep_view());
                }
                match &row[*i] {
                    Some(s) => Some(s),
                    None => None,
                }
            } else {
                None
            }
        },
        None => None,
    }
}

/// Builds the aliases of one row.
fn row_aliases_exec(
    cols: &Vec<String>,
    row: &Vec<Option<String>>,
    alias_idx: &Option<usize>,
    zh_idx: &Option<usize>,
) -> (r: Vec<String>)
    requires
        oidx(*alias_idx) == alias_col_of(cols.deep_view()),
        oidx(*zh_idx) == zh_col_of(cols.deep_view()),
    ensures
        r.deep_view() == row_aliases(cols.deep_view(), row.deep_view()),
{
    let ghost cv = cols.deep_view();
    let ghost rv = row.deep_view();
    let mut base: Vec<String>;
    match get_cell(row, alias_idx) {
        Some(s) => {
            base = split_aliases(s.as_str());
        },
        None => {
            base = Vec::new();
            proof {
                assert(base.deep_view() =~= Seq::<Seq<char>>::empty());
            }
        },
    }
    let ghost base0 = base.deep_view();
    proof {
        assert(base0 == match cell(rv, alias_col_of(cv)) {
            Some(s) => split_aliases_spec(s),
            None => Seq::<Seq<char>>::empty(),
        });
    }
    match get_cell(row, zh_idx) {
        Some(z) => {
            let z_chars = to_chars(z.as_str());
            let zt = trim_chars(&z_chars);
            if zt.len() > 0 {
                let zl = to_lower(&zt);
                let mut dup = false;
                let mut i: usize = 0;
                while i < base.len()
                    invariant
                        base.deep_view() == base0,
                        i <= base@.len(),
                        base.deep_view().len() == base@.len(),
                        zl@ == lower_seq(zt@),
                        dup ==> has_alias_ci(base0, zt@),
                        !dup ==> forall|k: int|
                            0 <= k < i ==> lower_seq(base0[k]) != lower_seq(zt@),
                    decreases base@.len() - i,
                {
                    if !dup {
                        let a_chars = to_chars(base[i].as_str());
                        let a_l = to_lower(&a_chars);
                        proof {
                            assert(base0[i as int] == base@[i as int]@);
                        }
                        if crate::strutil::eq_chars(&a_l, &zl) {
                            dup = true;
                        }
                    }
                    i = i + 1;
                }
                if !dup {
                    proof {
                        assert(!has_alias_ci(base0, zt@));
                    }
                    let ghost pre = base.deep_view();
                    base.push(chars_to_string(&zt));
                    proof {
                        assert(base.deep_view() =~= pre.push(zt@));
                    }
                }
            }
        },
        None => {},
    }
    base
}

/// Builds one synthetic save rule.
fn make_rule(
    table_chars: &Vec<char>,
    name_chars: &Vec<char>,
    col: &String,
    val: &String,
) -> (r: SavePathRule)
    ensures
        rule_matches(
            r,
            (rule_id_of(name_chars@, col@), rule_desc_of(table_chars@, col@),
            normalize_template_spec(val@)),
        ),
{
    let col_chars = to_chars(col.as_str());
    let mut sp: Vec<char> = Vec::new();
    sp.push(' ');
    let mut us: Vec<char> = Vec::new();
    us.push('_');
    proof {
        assert(sp@ =~= seq![' ']);
        assert(us@ =~= seq!['_']);
    }
    let mut id_chars = replace_chars(name_chars, &sp, &us);
    id_chars.push('-');
    extend_chars(&mut id_chars, &col_chars);
    proof {
        assert(id_chars@ =~= rule_id_of(name_chars@, col@));
    }
    let mut desc_chars = to_chars("Imported from ");
    extend_chars(&mut desc_chars, table_chars);
    desc_chars.push('.');
    extend_chars(&mut desc_chars, &col_chars);
    proof {
        assert(desc_chars@ =~= rule_desc_of(table_chars@, col@));
    }
    let template = normalize_path_template(val.as_str());
    let mut platforms: Vec<String> = Vec::new();
    platforms.push(String::from_str("windows"));
    proof {
        assert(platforms.deep_view() =~= seq!["windows"@]);
    }
    SavePathRule {
        id: chars_to_string(&id_chars),
        description: Some(chars_to_string(&desc_chars)),
        path_template: template,
        requires: None,
        platforms,
        confidence: Score::new(3, 5),
    }
}

/// Builds the synthetic save rules of one row.
fn row_rules_exec(
    table_chars: &Vec<char>,
    name_chars: &Vec<char>,
    cols: &Vec<String>,
    row: &Vec<Option<String>>,
    pidx: &Vec<usize>,
) -> (r: Vec<SavePathRule>)
    requires
        pidx@.map_values(|u: usize| u as int) == path_cols_of(cols.deep_view()),
    ensures
        rules_match(
            r@,
            rules_from(
                table_chars@,
                name_chars@,
                cols.deep_view(),
                row.deep_view(),
                path_cols_of(cols.deep_view()),
            ),
        ),
{
    let ghost cv = cols.deep_view();
    let ghost rv = row.deep_view();
    let ghost pc = path_cols_of(cv);
    let mut out: Vec<SavePathRule> = Vec::new();
    let mut j: usize = 0;
    proof {
        assert(pc.take(0) =~= Seq::<int>::empty());
    }
    while j < pidx.len()
        invariant
            cv == cols.deep_view(),
            rv == row.deep_view(),
            rv.len() == row@.len(),
            pc == path_cols_of(cv),
            pidx@.map_values(|u: usize| u as int) == pc,
            j <= pidx@.len(),
            pc.len() == pidx@.len(),
            rules_match(out@, rules_from(table_chars@, name_chars@, cv, rv, pc.take(j as int))),
        decreases pidx@.len() - j,
    {
        let ghost old_rules = rules_from(table_chars@, name_chars@, cv, rv, pc.take(j as int));
        proof {
            assert(pc.take(j + 1).drop_last() =~= pc.take(j as int));
            assert(pc.take(j + 1).last() == pc[j as int]);
            assert(pc[j as int] == pidx@[j as int] as int);
        }
        let i = pidx[j];
        let mut val_ref: Option<&String> = None;
        if i < row.len() {
            proof {
                assert(rv[i as int] == row@[i as int].deep_view());
            }
            match &row[i] {
                Some(s) => {
                    val_ref = Some(s);
                },
                None => {},
            }
        }
        match val_ref {
            Some(v) => {
                let v_chars = to_chars(v.as_str());
                let t = trim_chars(&v_chars);
                if t.len() > 0 && i < cols.len() {
                    proof {
                        lemma_deep_view_index(*cols, i as int);
                    }
                    let rule = make_rule(table_chars, name_chars, &cols[i], v);
                    let ghost pre = out@;
                    out.push(rule);
                    proof {
                        let specs = rules_from(
                            table_chars@,
                            name_chars@,
                            cv,
                            rv,
                            pc.take(j + 1),
                        );
                        assert(specs =~= old_rules.push(
                            (rule_id_of(name_chars@, cv[i as int]), rule_desc_of(
                                table_chars@,
                                cv[i as int],
                            ), normalize_template_spec(rv[i as int]->Some_0)),
                        ));
                        assert(forall|k: int| 0 <= k < pre.len() ==> out@[k] == pre[k]);
                    }
                } else {
                    proof {
                        assert(rules_from(table_chars@, name_chars@, cv, rv, pc.take(j + 1))
                            == old_rules);
                    }
                }
            },
            None => {
                proof {
                    assert(rules_from(table_chars@, name_chars@, cv, rv, pc.take(j + 1))
                        == old_rules);
                }
            },
        }
        j = j + 1;
    }
    proof {
        assert(pc.take(pc.len() as int) =~= pc);
    }
    out
}

/// Builds one catalog entry from one row; nothing when the row has no
/// usable name.
fn game_from_row(
    table_chars: &Vec<char>,
    cols: &Vec<String>,
    row: &Vec<Option<String>>,
    name_idx: &Option<usize>,
    alias_idx: &Option<usize>,
    zh_idx: &Option<usize>,
    pcgw_idx: &Option<usize>,
    pidx: &Vec<usize>,
) -> (r: Option<GameInfo>)
    requires
        oidx(*name_idx) == name_col_of(cols.deep_view()),
        oidx(*alias_idx) == alias_col_of(cols.deep_view()),
        oidx(*zh_idx) == zh_col_of(cols.deep_view()),
        oidx(*pcgw_idx) == pcgw_col_of(cols.deep_view()),
        pidx@.map_values(|u: usize| u as int) == path_cols_of(cols.deep_view()),
    ensures
        match r {
            None => !row_kept(cols.deep_view(), row.deep_view()),
            Some(g) => {
                &&& row_kept(cols.deep_view(), row.deep_view())
                &&& game_matches_row(g, table_chars@, cols.deep_view(), row.deep_view())
            },
        },
{
    let ghost cv = cols.deep_view();
    let ghost rv = row.deep_view();
    let name: String = match get_cell(row, name_idx) {
        Some(s) => s.clone(),
        None => String::new(),
    };
    let name_chars = to_chars(name.as_str());
    proof {
        assert(name_chars@ == row_name(cv, rv));
    }
    let t = trim_chars(&name_chars);
    if t.len() == 0 {
        return None;
    }
    let aliases = row_aliases_exec(cols, row, alias_idx, zh_idx);
    let pcgw_id: Option<String> = match get_cell(row, pcgw_idx) {
        Some(s) => Some(s.clone()),
        None => None,
    };
    proof {
        match &pcgw_id {
            Some(s) => {
                assert(pcgw_id.deep_view() == Some(s@));
            },
            None => {},
        }
    }
    let save_rules = row_rules_exec(table_chars, &name_chars, cols, row, pidx);
    Some(
        GameInfo { name, aliases, pcgw_id, install_rules: Vec::new(), save_rules },
    )
}

/// Builds catalog entries from the rows of one table of a foreign
/// source, or nothing when the table has no name-like column. Every row
/// with a usable name yields one entry, in order, as `game_matches_row`
/// describes.
pub fn import_catalog_from_rows(
    table_name: &str,
    col_names: &Vec<String>,
    rows: &Vec<Vec<Option<String>>>,
) -> (r: Option<Vec<GameInfo>>)
    ensures
        match r {
            None => name_col_of(col_names.deep_view()) is None,
            Some(games) => {
                &&& name_col_of(col_names.deep_view()) is Some
                &&& games@.len() == kept_rows(col_names.deep_view(), rows.deep_view()).len()
                &&& forall|k: int|
                    0 <= k < games@.len() ==> game_matches_row(
                        games@[k],
                        table_name@,
                        col_names.deep_view(),
                        kept_rows(col_names.deep_view(), rows.deep_view())[k],
                    )
            },
        },
{
    let ghost cv = col_names.deep_view();
    let ghost rsv = rows.deep_view();
    let name_idx = find_name_col(col_names);
    match name_idx {
        None => {
            return None;
        },
        Some(_) => {},
    }
    let alias_idx = find_alias_col(col_names);
    let zh_idx = find_zh_col(col_names);
    let pcgw_idx = find_pcgw_col(col_names);
    let pidx = find_path_cols(col_names);
    let table_chars = to_chars(table_name);
    let mut out: Vec<GameInfo> = Vec::new();
    let mut i: usize = 0;
    proof {
        assert(rsv.take(0) =~= Seq::<Seq<Option<Seq<char>>>>::empty());
    }
    while i < rows.len()
        invariant
            cv == col_names.deep_view(),
            rsv == rows.deep_view(),
            rsv.len() == rows@.len(),
            table_chars@ == table_name@,
            i <= rows@.len(),
            oidx(name_idx) == name_col_of(cv),
            oidx(alias_idx) == alias_col_of(cv),
            oidx(zh_idx) == zh_col_of(cv),
            oidx(pcgw_idx) == pcgw_col_of(cv),
            pidx@.map_values(|u: usize| u as int) == path_cols_of(cv),
            out@.len() == kept_rows(cv, rsv.take(i as int)).len(),
            forall|k: int|
                0 <= k < out@.len() ==> game_matches_row(
                    out@[k],
                    table_name@,
                    cv,
                    kept_rows(cv, rsv.take(i as int))[k],
                ),
        decreases rows@.len() - i,
    {
        let ghost kept_pre = kept_rows(cv, rsv.take(i as int));
        proof {
            assert(rsv.take(i + 1).drop_last() =~= rsv.take(i as int));
            assert(rsv.take(i + 1).last() == rsv[i as int]);
            assert(rsv[i as int] == rows@[i as int].deep_view());
        }
        match game_from_row(
            &table_chars,
            col_names,
            &rows[i],
            &name_idx,
            &alias_idx,
            &zh_idx,
            &pcgw_idx,
            &pidx,
        ) {
            Some(g) => {
                let ghost pre = out@;
                out.push(g);
                proof {
                    assert(kept_rows(cv, rsv.take(i + 1)) =~= kept_pre.push(rsv[i as int]));
                    assert(forall|k: int| 0 <= k < pre.len() ==> out@[k] == pre[k]);
                }
            },
            None => {
                proof {
                    assert(kept_rows(cv, rsv.take(i + 1)) == kept_pre);
                }
            },
        }
        i = i + 1;
    }
    proof {
        assert(rsv.take(rsv.len() as int) =~= rsv);
    }
    Some(out)
}

/// The version tag and size of a catalog, for status display.
pub fn catalog_meta(c: &crate::types::Catalog) -> (r: crate::types::PcgwIndexMeta)
    ensures
        r.version matches Some(v) && v@ == c.version@,
        r.count == c.entries@.len(),
{
    crate::types::PcgwIndexMeta { version: Some(c.version.clone()), count: c.entries.len() }
}

/// Whether a table exposes a name-like column.
pub open spec fn table_has_name_col(t: TableInfo) -> bool {
    name_col_of(t.columns.deep_view()) is Some
}

/// Picks the table the import will read: the first exposing a name-like
/// column.
pub fn choose_game_table(tables: &Vec<TableInfo>) -> (r: Option<usize>)
    ensures
        match r {
            Some(i) => {
                &&& i < tables@.len()
                &&& table_has_name_col(tables@[i as int])
                &&& forall|k: int| 0 <= k < i ==> !table_has_name_col(tables@[k])
            },
            None => forall|k: int| 0 <= k < tables@.len() ==> !table_has_name_col(tables@[k]),
        },
{
    let mut i: usize = 0;
    while i < tables.len()
        invariant
            i <= tables@.len(),
            forall|k: int| 0 <= k < i ==> !table_has_name_col(tables@[k]),
        decreases tables@.len() - i,
    {
        match find_name_col(&tables[i].columns) {
            Some(_) => {
                return Some(i);
            },
            None => {},
        }
        i = i + 1;
    }
    None
}

} // verus!
