//! A JSON-shaped tree of plain values, and the field extraction the
//! scanners run over it.
//!
//! Parsing bytes into this tree is the caller's business; the scanners
//! here only decide what a document means: the launcher-manifest reader
//! picks fixed fields, and the arbitrary-document reader walks the whole
//! tree for name-like/install-path-like field pairs.

use vstd::prelude::*;

verus! {

/// A JSON document as plain values. Numbers, booleans and nulls play no
/// part in any extraction and are kept as `Other`.
#[derive(Debug)]
pub enum JsonNode {
    Str(String),
    Arr(Vec<JsonNode>),
    Obj(Vec<(String, JsonNode)>),
    Other,
}

/// The first value bound to `key` in an object's fields.
pub open spec fn obj_get(fields: Seq<(String, JsonNode)>, key: Seq<char>) -> Option<JsonNode>
    decreases fields.len(),
{
    if fields.len() == 0 {
        None
    } else if fields[0].0@ == key {
        Some(fields[0].1)
    } else {
        obj_get(fields.drop_first(), key)
    }
}

/// The string content of a node, if it is a string.
pub open spec fn node_str(n: Option<JsonNode>) -> Option<Seq<char>> {
    match n {
        Some(JsonNode::Str(s)) => Some(s@),
        _ => None,
    }
}

/// Looks a key up in an object's fields; first match wins.
fn obj_get_exec<'a>(fields: &'a Vec<(String, JsonNode)>, key: &str) -> (r: Option<&'a JsonNode>)
    ensures
        match r {
            Some(n) => obj_get(fields@, key@) == Some(*n),
            None => obj_get(fields@, key@) is None,
        },
{
    let mut i: usize = 0;
    proof {
        assert(fields@.skip(0) =~= fields@);
    }
    while i < fields.len()
        invariant
            i <= fields@.len(),
            obj_get(fields@, key@) == obj_get(fields@.skip(i as int), key@),
        decreases fields@.len() - i,
    {
        proof {
            assert(fields@.skip(i as int)[0] == fields@[i as int]);
        }
        if crate::strutil::eq_chars_str(&crate::strutil::to_chars(fields[i].0.as_str()), key) {
            return Some(&fields[i].1);
        }
        proof {
            assert(fields@.skip(i as int).drop_first() =~= fields@.skip(i + 1));
        }
        i = i + 1;
    }
    None
}

/// The string bound to `key`, if any.
fn obj_get_str<'a>(fields: &'a Vec<(String, JsonNode)>, key: &str) -> (r: Option<&'a String>)
    ensures
        match r {
            Some(s) => node_str(obj_get(fields@, key@)) == Some(s@),
            None => node_str(obj_get(fields@, key@)) is None,
        },
{
    match obj_get_exec(fields, key) {
        Some(n) => match n {
            JsonNode::Str(s) => Some(s),
            _ => None,
        },
        None => None,
    }
}

/// What a launcher manifest names: the display name (with the app name as
/// fallback) and the install location (either field casing).
pub open spec fn manifest_fields(n: JsonNode) -> Option<(Seq<char>, Seq<char>)> {
    match n {
        JsonNode::Obj(fields) => {
            let name = match node_str(obj_get(fields@, "DisplayName"@)) {
                Some(s) => Some(s),
                None => node_str(obj_get(fields@, "AppName"@)),
            };
            let install = match node_str(obj_get(fields@, "InstallLocation"@)) {
                Some(s) => Some(s),
                None => node_str(obj_get(fields@, "installLocation"@)),
            };
            match (name, install) {
                (Some(nm), Some(ins)) => Some((nm, ins)),
                _ => None,
            }
        },
        _ => None,
    }
}

/// Reads a launcher manifest: its display name (or app name) and install
/// location. Whether the install location exists on disk is the caller's
/// check.
pub fn parse_manifest_fields(doc: &JsonNode) -> (r: Option<(String, String)>)
    ensures
        match r {
            Some(p) => manifest_fields(*doc) == Some((p.0@, p.1@)),
            None => manifest_fields(*doc) is None,
        },
{
    match doc {
        JsonNode::Obj(fields) => {
            let name: Option<&String> = match obj_get_str(fields, "DisplayName") {
                Some(s) => Some(s),
                None => obj_get_str(fields, "AppName"),
            };
            let install: Option<&String> = match obj_get_str(fields, "InstallLocation") {
                Some(s) => Some(s),
                None => obj_get_str(fields, "installLocation"),
            };
            match (name, install) {
                (Some(nm), Some(ins)) => Some((nm.clone(), ins.clone())),
                _ => None,
            }
        },
        _ => None,
    }
}

/// The name an arbitrary-document record exposes.
pub open spec fn ea_name(fields: Seq<(String, JsonNode)>) -> Option<Seq<char>> {
    match node_str(obj_get(fields, "displayName"@)) {
        Some(s) => Some(s),
        None => match node_str(obj_get(fields, "productName"@)) {
            Some(s) => Some(s),
            None => node_str(obj_get(fields, "title"@)),
        },
    }
}

/// The install path an arbitrary-document record exposes.
pub open spec fn ea_install(fields: Seq<(String, JsonNode)>) -> Option<Seq<char>> {
    match node_str(obj_get(fields, "installLocation"@)) {
        Some(s) => Some(s),
        None => match node_str(obj_get(fields, "installationPath"@)) {
            Some(s) => Some(s),
            None => node_str(obj_get(fields, "path"@)),
        },
    }
}

/// Every (name, install path) pair an arbitrary JSON document exposes:
/// an object with both fields yields one pair and is not descended into;
/// any other object and any array is walked in order.
pub open spec fn ea_entries(n: JsonNode) -> Seq<(Seq<char>, Seq<char>)>
    decreases n,
{
    match n {
        JsonNode::Arr(items) => ea_entries_list(items@),
        JsonNode::Obj(fields) => match (ea_name(fields@), ea_install(fields@)) {
            (Some(nm), Some(ins)) => seq![(nm, ins)],
            _ => ea_entries_fields(fields@),
        },
        _ => Seq::empty(),
    }
}

/// The pairs of a list of documents, in order.
pub open spec fn ea_entries_list(items: Seq<JsonNode>) -> Seq<(Seq<char>, Seq<char>)>
    decreases items,
{
    if items.len() == 0 {
        Seq::empty()
    } else {
        ea_entries(items[0]) + ea_entries_list(items.drop_first())
    }
}

/// The pairs found under an object's values, in field order.
pub open spec fn ea_entries_fields(fields: Seq<(String, JsonNode)>) -> Seq<
    (Seq<char>, Seq<char>),
>
    decreases fields,
{
    if fields.len() == 0 {
        Seq::empty()
    } else {
        ea_entries(fields[0].1) + ea_entries_fields(fields.drop_first())
    }
}

/// Pointwise agreement of extracted pairs with their spec.
pub open spec fn pairs_match(
    r: Seq<(String, String)>,
    s: Seq<(Seq<char>, Seq<char>)>,
) -> bool {
    &&& r.len() == s.len()
    &&& forall|k: int| 0 <= k < r.len() ==> (#[trigger] r[k].0@, r[k].1@) == s[k]
}

/// Walks an arbitrary JSON document for (name, install path) pairs, as
/// `ea_entries` describes.
pub fn extract_install_entries(n: &JsonNode) -> (r: Vec<(String, String)>)
    ensures
        pairs_match(r@, ea_entries(*n)),
    decreases *n,
{
    match n {
        JsonNode::Arr(items) => {
            let r = extract_entries_list(items, 0);
            proof {
                assert(items@.skip(0) =~= items@);
            }
            r
        },
        JsonNode::Obj(fields) => {
            let name: Option<&String> = match obj_get_str(fields, "displayName") {
                Some(s) => Some(s),
                None => match obj_get_str(fields, "productName") {
                    Some(s) => Some(s),
                    None => obj_get_str(fields, "title"),
                },
            };
            let install: Option<&String> = match obj_get_str(fields, "installLocation") {
                Some(s) => Some(s),
                None => match obj_get_str(fields, "installationPath") {
                    Some(s) => Some(s),
                    None => obj_get_str(fields, "path"),
                },
            };
            match (name, install) {
                (Some(nm), Some(ins)) => {
                    let mut out: Vec<(String, String)> = Vec::new();
                    out.push((nm.clone(), ins.clone()));
                    proof {
                        assert(out@[0].0@ == nm@);
                        assert(out@[0].1@ == ins@);
                    }
                    out
                },
                _ => {
                    let r = extract_entries_fields(fields, 0);
                    proof {
                        assert(fields@.skip(0) =~= fields@);
                    }
                    r
                },
            }
        },
        _ => Vec::new(),
    }
}

/// Walks the tail of a list of documents from position `i`.
fn extract_entries_list(items: &Vec<JsonNode>, i: usize) -> (r: Vec<(String, String)>)
    requires
        i <= items@.len(),
    ensures
        pairs_match(r@, ea_entries_list(items@.skip(i as int))),
    decreases items@, items@.len() - i,
{
    if i == items.len() {
        proof {
            assert(items@.skip(i as int) =~= Seq::<JsonNode>::empty());
        }
        Vec::new()
    } else {
        proof {
            assert(items@.skip(i as int)[0] == items@[i as int]);
            assert(items@.skip(i as int).drop_first() =~= items@.skip(i + 1));
        }
        let mut head = extract_install_entries(&items[i]);
        let mut tail = extract_entries_list(items, i + 1);
        let ghost hv = head@;
        let ghost tv = tail@;
        head.append(&mut tail);
        proof {
            assert(head@ == hv + tv);
        }
        head
    }
}

/// Walks the values of an object's fields from position `i`.
fn extract_entries_fields(fields: &Vec<(String, JsonNode)>, i: usize) -> (r: Vec<
    (String, String),
>)
    requires
        i <= fields@.len(),
    ensures
        pairs_match(r@, ea_entries_fields(fields@.skip(i as int))),
    decreases fields@, fields@.len() - i,
{
    if i == fields.len() {
        proof {
            assert(fields@.skip(i as int) =~= Seq::<(String, JsonNode)>::empty());
        }
        Vec::new()
    } else {
        proof {
            assert(fields@.skip(i as int)[0] == fields@[i as int]);
            assert(fields@.skip(i as int).drop_first() =~= fields@.skip(i + 1));
        }
        let mut head = extract_install_entries(&fields[i].1);
        let mut tail = extract_entries_fields(fields, i + 1);
        let ghost hv = head@;
        let ghost tv = tail@;
        head.append(&mut tail);
        proof {
            assert(head@ == hv + tv);
        }
        head
    }
}

} // verus!
