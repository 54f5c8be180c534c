//! The trusted boundary to `serde_json`, and the verified extraction of
//! release entries from a listing payload.
//!
//! A `serde_json::Value` is opaque to the verifier, so it is given a model:
//! `json_node` names the `JsonNode` tree a value stands for, and `json_of`
//! names the tree a text parses to — both functions of their argument alone.
//! Each trusted wrapper states what its one `serde_json` call returns in
//! terms of that model; the walk that collects each release entry's plain
//! fields is then ordinary verified code, and `extract_entries` returns
//! exactly what `spec_extract` says the payload holds.

use vstd::prelude::*;

use crate::releases::EntryView;
use crate::releases::ReleaseEntry;

verus! {

#[verifier::external_type_specification]
#[verifier::external_body]
pub struct ExValue(serde_json::Value);

/// A JSON value, modeled: everything the extraction can read of a
/// `serde_json::Value`.  A null or a number is nothing it reads, so both
/// model as `Other`.
pub ghost enum JsonNode {
    Object { members: Map<Seq<char>, JsonNode> },
    Array { elems: Seq<JsonNode> },
    Str { text: Seq<char> },
    Bool { truth: bool },
    Other,
}

/// The model of a `serde_json::Value`: a function of the value alone.
pub uninterp spec fn json_node(v: serde_json::Value) -> JsonNode;

/// The tree a text parses to under `serde_json`, or `None` where the text is
/// no JSON document it accepts; a function of the text alone.
pub uninterp spec fn json_of(s: Seq<char>) -> Option<JsonNode>;

/// Relies on `serde_json::from_str::<Value>`: parsing succeeds exactly on
/// the documents serde_json accepts, to the tree `json_of` names; `None`
/// stands for its error.
#[verifier::external_body]
fn json_from_str(s: &str) -> (r: Option<serde_json::Value>)
    ensures
        r is Some <==> json_of(s@) is Some,
        r matches Some(v) ==> json_of(s@) == Some(json_node(v)),
{
    serde_json::from_str(s).ok()
}

/// Relies on `serde_json::Value::as_array`: the elements of an array value,
/// in order, and nothing of any other value.
#[verifier::external_body]
fn json_as_array(v: &serde_json::Value) -> (r: Option<&Vec<serde_json::Value>>)
    ensures
        r is Some <==> json_node(*v) is Array,
        r matches Some(a) ==> {
            &&& a@.len() == json_node(*v)->elems.len()
            &&& forall|i: int|
                0 <= i < a@.len() ==> (#[trigger] json_node(a@[i])) == json_node(*v)->elems[i]
        },
{
    v.as_array()
}

/// Relies on `serde_json::Value::get` with a string key: the member of an
/// object under the key, `None` for an absent key or any other value.
#[verifier::external_body]
fn json_get<'a>(v: &'a serde_json::Value, key: &str) -> (r: Option<&'a serde_json::Value>)
    ensures
        json_node(*v) matches JsonNode::Object { members } ==> {
            &&& (r is Some <==> members.dom().contains(key@))
            &&& (r matches Some(u) ==> json_node(*u) == members[key@])
        },
        !(json_node(*v) is Object) ==> r is None,
{
    v.get(key)
}

/// Relies on `serde_json::Value::as_str`: the text of a string value, and
/// nothing of any other value.
#[verifier::external_body]
fn json_as_str(v: &serde_json::Value) -> (r: Option<&str>)
    ensures
        r is Some <==> json_node(*v) is Str,
        r matches Some(s) ==> s@ == json_node(*v)->text,
{
    v.as_str()
}

/// Relies on `serde_json::Value::as_bool`: the truth of a boolean value, and
/// nothing of any other value.
#[verifier::external_body]
fn json_as_bool(v: &serde_json::Value) -> (r: Option<bool>)
    ensures
        r is Some <==> json_node(*v) is Bool,
        r matches Some(b) ==> b == json_node(*v)->truth,
{
    v.as_bool()
}

/// The text of an object's member, where the member is present and a string.
pub open spec fn member_str(m: Map<Seq<char>, JsonNode>, key: Seq<char>) -> Option<Seq<char>> {
    if m.dom().contains(key) && m[key] is Str {
        Some(m[key]->text)
    } else {
        None
    }
}

/// The entry one release object contributes: present exactly where the
/// object carries a string page URL, a boolean prerelease flag and a first
/// asset with a string name and creation time.  Assets beyond the first are
/// ignored; an asset-less release contributes nothing.
pub open spec fn spec_entry_of(j: JsonNode) -> Option<EntryView> {
    match j {
        JsonNode::Object { members: m } => {
            if m.dom().contains("assets"@) && m["assets"@] is Array && m["assets"@]->elems.len()
                > 0 {
                match m["assets"@]->elems[0] {
                    JsonNode::Object { members: am } => {
                        match (member_str(m, "html_url"@), member_str(am, "name"@), member_str(
                            am,
                            "created_at"@,
                        )) {
                            (Some(hu), Some(an), Some(ac)) => {
                                if m.dom().contains("prerelease"@) && m["prerelease"@] is Bool {
                                    Some(
                                        EntryView {
                                            html_url: hu,
                                            prerelease: m["prerelease"@]->truth,
                                            body: member_str(m, "body"@),
                                            asset_name: an,
                                            asset_created: ac,
                                        },
                                    )
                                } else {
                                    None
                                }
                            },
                            _ => None,
                        }
                    },
                    _ => None,
                }
            } else {
                None
            }
        },
        _ => None,
    }
}

/// The entries a sequence of release objects contributes, in order.
pub open spec fn spec_entries_list(elems: Seq<JsonNode>) -> Seq<EntryView>
    decreases elems.len(),
{
    if elems.len() == 0 {
        Seq::<EntryView>::empty()
    } else {
        let p = spec_entries_list(elems.drop_last());
        match spec_entry_of(elems.last()) {
            None => p,
            Some(e) => p.push(e),
        }
    }
}

/// The entries of a listing document: the element-wise extraction over an
/// array, and nothing of a missing or non-array document.
pub open spec fn spec_extract(doc: Option<JsonNode>) -> Seq<EntryView> {
    match doc {
        Some(j) => match j {
            JsonNode::Array { elems } => spec_entries_list(elems),
            _ => Seq::<EntryView>::empty(),
        },
        None => Seq::<EntryView>::empty(),
    }
}

/// The plain fields of one release entry, exactly as `spec_entry_of` reads
/// them from the entry's model.
fn extract_one(entry: &serde_json::Value) -> (r: Option<ReleaseEntry>)
    ensures
        r is Some <==> spec_entry_of(json_node(*entry)) is Some,
        r matches Some(e) ==> spec_entry_of(json_node(*entry)) == Some(e@),
{
    let html_url = match json_get(entry, "html_url") {
        Some(v) => match json_as_str(v) {
            Some(s) => s.to_owned(),
            None => {
                return None;
            },
        },
        None => {
            return None;
        },
    };
    let prerelease = match json_get(entry, "prerelease") {
        Some(v) => match json_as_bool(v) {
            Some(b) => b,
            None => {
                return None;
            },
        },
        None => {
            return None;
        },
    };
    let assets = match json_get(entry, "assets") {
        Some(v) => match json_as_array(v) {
            Some(a) => a,
            None => {
                return None;
            },
        },
        None => {
            return None;
        },
    };
    if assets.len() == 0 {
        return None;
    }
    let first = &assets[0];
    let asset_name = match json_get(first, "name") {
        Some(v) => match json_as_str(v) {
            Some(s) => s.to_owned(),
            None => {
                return None;
            },
        },
        None => {
            return None;
        },
    };
    let asset_created = match json_get(first, "created_at") {
        Some(v) => match json_as_str(v) {
            Some(s) => s.to_owned(),
            None => {
                return None;
            },
        },
        None => {
            return None;
        },
    };
    let body = match json_get(entry, "body") {
        Some(v) => match json_as_str(v) {
            Some(s) => Some(s.to_owned()),
            None => None,
        },
        None => None,
    };
    Some(ReleaseEntry { html_url, prerelease, body, asset_name, asset_created })
}

/// Every complete release entry of a releases-listing payload, in listing
/// order, exactly as `spec_extract` reads them from the parsed document's
/// model.  A payload that is not a JSON array contributes nothing.
pub(crate) fn extract_entries(payload: &str) -> (r: Vec<ReleaseEntry>)
    ensures
        r.deep_view() == spec_extract(json_of(payload@)),
{
    let mut out: Vec<ReleaseEntry> = Vec::new();
    let parsed = match json_from_str(payload) {
        Some(v) => v,
        None => {
            proof {
                assert(out.deep_view() =~~= spec_extract(json_of(payload@)));
            }
            return out;
        },
    };
    let arr = match json_as_array(&parsed) {
        Some(a) => a,
        None => {
            proof {
                assert(out.deep_view() =~~= spec_extract(json_of(payload@)));
            }
            return out;
        },
    };
    let ghost elems = json_node(parsed)->elems;
    let mut i: usize = 0;
    proof {
        assert(out.deep_view() =~~= spec_entries_list(elems.take(0)));
    }
    while i < arr.len()
        invariant
            json_of(payload@) == Some(json_node(parsed)),
            json_node(parsed) is Array,
            elems == json_node(parsed)->elems,
            arr@.len() == elems.len(),
            forall|k: int|
                0 <= k < arr@.len() ==> (#[trigger] json_node(arr@[k])) == elems[k],
            i <= arr.len(),
            out.deep_view() == spec_entries_list(elems.take(i as int)),
        decreases arr.len() - i,
    {
        proof {
            assert(elems.take(i + 1).drop_last() =~= elems.take(i as int));
            assert(elems.take(i + 1).last() == elems[i as int]);
        }
        match extract_one(&arr[i]) {
            Some(e) => {
                let ghost dv0 = out.deep_view();
                let ghost ev = e@;
                out.push(e);
                proof {
                    assert(out.deep_view() =~~= dv0.push(ev));
                }
            },
            None => (),
        }
        i = i + 1;
    }
    proof {
        assert(elems.take(elems.len() as int) =~= elems);
    }
    out
}

} // verus!
