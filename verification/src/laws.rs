//! The library's laws: properties that hold across operations, stated over
//! the spec functions the operations' own contracts use, and proved here.

use vstd::prelude::*;

use crate::data::PluginView;
use crate::ops::PlanView;
use crate::ops::spec_candidates;
use crate::ops::spec_plan;
use crate::registry::first_with_name;
use crate::registry::lemma_first_with_name;
use crate::registry::lemma_first_with_name_none;
use crate::registry::names_unique;
use crate::registry::reg_has_name;
use crate::releases::RecordView;
use crate::releases::latest_index;
use crate::releases::lemma_latest_is_max;
use crate::releases::spec_latest;
use crate::releases::payload_records;
use crate::releases::spec_remove_pre;
use crate::time::ts_le;

verus! {

/// Parsing is a function of the listing payload's text: parsing the same
/// payload twice yields identical records.
pub proof fn parse_deterministic(s1: Seq<char>, s2: Seq<char>)
    requires
        s1 == s2,
    ensures
        payload_records(s1) == payload_records(s2),
{
}

/// A payload that is not a JSON document serde_json accepts parses to the
/// empty record set: no partial records are emitted.
pub proof fn invalid_payload_parses_to_nothing(s: Seq<char>)
    requires
        crate::json::json_of(s) is None,
    ensures
        payload_records(s).len() == 0,
{
}

/// Selection is deterministic and maximal: of a nonempty record set, the
/// selected record exists and no record has a later creation instant.
pub proof fn select_latest_is_max(s: Seq<RecordView>)
    requires
        s.len() > 0,
    ensures
        spec_latest(s) matches Some(sel) && forall|j: int|
            0 <= j < s.len() ==> ts_le((#[trigger] s[j]).created, sel.created),
{
    lemma_latest_is_max(s);
}

/// Every record the stable filter keeps is a stable record.
pub proof fn remove_pre_keeps_stable(s: Seq<RecordView>)
    ensures
        forall|j: int|
            0 <= j < spec_remove_pre(s).len() ==> !(#[trigger] spec_remove_pre(
                s,
            )[j]).plugin.pre_release,
    decreases s.len(),
{
    if s.len() > 0 {
        remove_pre_keeps_stable(s.drop_last());
        let p = spec_remove_pre(s.drop_last());
        if !s.last().plugin.pre_release {
            assert forall|j: int|
                0 <= j < spec_remove_pre(s).len() implies !(#[trigger] spec_remove_pre(
                s,
            )[j]).plugin.pre_release by {
                if j < p.len() {
                    assert(spec_remove_pre(s)[j] == p[j]);
                }
            }
        }
    }
}

/// The stable selection never returns a pre-release record.
pub proof fn select_stable_never_pre(s: Seq<RecordView>)
    ensures
        spec_latest(spec_remove_pre(s)) matches Some(sel) ==> !sel.plugin.pre_release,
{
    remove_pre_keeps_stable(s);
    let f = spec_remove_pre(s);
    if f.len() > 0 {
        lemma_latest_is_max(f);
    }
}

/// After a successful registration of a record, a second registration under
/// the same name finds the name taken — and is therefore rejected with the
/// registry unchanged, as `register_insert` ensures of a taken name.
pub proof fn second_registration_rejected(s: Seq<PluginView>, p: PluginView, q: PluginView)
    requires
        p.name == q.name,
    ensures
        reg_has_name(s.push(p), q.name),
{
    let t = s.push(p);
    lemma_first_with_name(t, q.name);
    if first_with_name(t, q.name) == -1 {
        assert(t[s.len() as int].name == q.name);
        assert(false);
    }
}

/// The update skip rule: where the selected candidate's version equals the
/// recorded one, the plan is to skip — nothing is installed, so the recorded
/// record stays untouched.
pub proof fn update_skip_when_current(cur: PluginView, rs: Seq<RecordView>, include_pre: bool)
    requires
        spec_candidates(rs, include_pre).len() > 0,
        ({
            let f = spec_candidates(rs, include_pre);
            f[latest_index(f)].plugin.version == cur.version
        }),
    ensures
        spec_plan(cur, rs, include_pre) is SkipCurrent,
{
}

/// After a removal by name from a well-formed registry, the name is absent.
pub proof fn unregister_then_absent(s: Seq<PluginView>, n: Seq<char>)
    requires
        names_unique(s),
        reg_has_name(s, n),
    ensures
        !reg_has_name(s.remove(first_with_name(s, n)), n),
{
    lemma_first_with_name(s, n);
    let i = first_with_name(s, n);
    let t = s.remove(i);
    assert forall|j: int| 0 <= j < t.len() implies (#[trigger] t[j]).name != n by {
        assert(t[j] == (if j < i {
            s[j]
        } else {
            s[j + 1]
        }));
    }
    lemma_first_with_name_none(t, n);
}

/// Where every record of a set is a pre-release, the stable selection is
/// empty and selects nothing.
pub proof fn all_pre_release_selects_none(s: Seq<RecordView>)
    requires
        forall|j: int| 0 <= j < s.len() ==> (#[trigger] s[j]).plugin.pre_release,
    ensures
        spec_remove_pre(s).len() == 0,
        spec_latest(spec_remove_pre(s)) is None,
    decreases s.len(),
{
    if s.len() > 0 {
        let t = s.drop_last();
        assert(forall|j: int| 0 <= j < t.len() ==> #[trigger] t[j] == s[j]);
        all_pre_release_selects_none(t);
    }
}

} // verus!
