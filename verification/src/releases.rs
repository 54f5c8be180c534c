//! Release records: parsing a releases listing into records, and selecting
//! the applicable record.
//!
//! A record is keyed by its creation instant.  Parsing derives the plugin
//! name and version from fixed positional segments of the release page URL,
//! takes the first asset only, skips entries without a parseable creation
//! time or enough URL segments, and lets a later entry with an equal instant
//! overwrite an earlier one.  Selection takes the record with the greatest
//! instant; the stable policy first removes the pre-release records.

use vstd::prelude::*;

use crate::data::PluginData;
use crate::data::PluginView;
use crate::json::extract_entries;
use crate::text::spec_replace_crlf;
use crate::text::spec_split;
use crate::text::replace_crlf;
use crate::text::split_char;
use crate::time::Timestamp;
use crate::time::parse_rfc3339;
use crate::time::rfc3339_instant;
use crate::time::ts_le;
use crate::time::ts_lt;
use crate::time::rfc3339_display;
use crate::url::github_repo_url;
use crate::url::repo_url_prefix;

verus! {

/// The plain fields of one upstream release entry, as extracted from the
/// listing payload.
#[derive(Debug)]
pub struct ReleaseEntry {
    pub html_url: String,
    pub prerelease: bool,
    pub body: Option<String>,
    pub asset_name: String,
    pub asset_created: String,
}

/// The mathematical value of a `ReleaseEntry`.
pub ghost struct EntryView {
    pub html_url: Seq<char>,
    pub prerelease: bool,
    pub body: Option<Seq<char>>,
    pub asset_name: Seq<char>,
    pub asset_created: Seq<char>,
}

impl View for ReleaseEntry {
    type V = EntryView;

    open spec fn view(&self) -> EntryView {
        EntryView {
            html_url: self.html_url@,
            prerelease: self.prerelease,
            body: self.body.deep_view(),
            asset_name: self.asset_name@,
            asset_created: self.asset_created@,
        }
    }
}

impl DeepView for ReleaseEntry {
    type V = EntryView;

    open spec fn deep_view(&self) -> EntryView {
        self.view()
    }
}

/// One parsed release: the plugin record it would install, keyed by the
/// instant the release's asset was created.
#[derive(Debug)]
pub struct ReleaseRecord {
    pub created: Timestamp,
    pub plugin: PluginData,
}

/// The mathematical value of a `ReleaseRecord`.
pub ghost struct RecordView {
    pub created: (int, int),
    pub plugin: PluginView,
}

impl View for ReleaseRecord {
    type V = RecordView;

    open spec fn view(&self) -> RecordView {
        RecordView { created: self.created@, plugin: self.plugin@ }
    }
}

impl DeepView for ReleaseRecord {
    type V = RecordView;

    open spec fn deep_view(&self) -> RecordView {
        self.view()
    }
}

/// The record one entry parses to: name and version from the fifth and
/// eighth slash-separated segment of the page URL, the instant from the
/// asset's creation time, the notes with line endings normalized.  `None`
/// where the URL is too short or the time does not parse.
pub open spec fn spec_record_of(e: EntryView) -> Option<RecordView> {
    let segs = spec_split(e.html_url, '/');
    if segs.len() < 8 {
        None
    } else {
        match rfc3339_instant(e.asset_created) {
            None => None,
            Some(ts) => Some(
                RecordView {
                    created: ts,
                    plugin: PluginView {
                        name: segs[4],
                        version: segs[7],
                        introduced_date: rfc3339_display(ts.0, ts.1),
                        description: match e.body {
                            Some(b) => Some(seq![spec_replace_crlf(b)]),
                            None => None,
                        },
                        pre_release: e.prerelease,
                        file_name: e.asset_name,
                        repository_url: repo_url_prefix() + segs[3] + "/"@ + segs[4],
                        latest_in_the_time: true,
                    },
                },
            ),
        }
    }
}

/// The index of the first record keyed by `key`, or `-1`.
pub open spec fn first_with_key(s: Seq<RecordView>, key: (int, int)) -> int
    decreases s.len(),
{
    if s.len() == 0 {
        -1
    } else if s[0].created == key {
        0
    } else {
        let r = first_with_key(s.drop_first(), key);
        if r < 0 {
            -1
        } else {
            r + 1
        }
    }
}

/// Put a record in a record set: a record with the same key is overwritten,
/// any other is appended.
pub open spec fn spec_upsert(s: Seq<RecordView>, r: RecordView) -> Seq<RecordView> {
    let i = first_with_key(s, r.created);
    if i >= 0 {
        s.update(i, r)
    } else {
        s.push(r)
    }
}

/// The record set a sequence of entries parses to, in order, later equal
/// keys overwriting earlier ones.
pub open spec fn spec_records(es: Seq<EntryView>) -> Seq<RecordView>
    decreases es.len(),
{
    if es.len() == 0 {
        Seq::<RecordView>::empty()
    } else {
        let prev = spec_records(es.drop_last());
        match spec_record_of(es.last()) {
            None => prev,
            Some(r) => spec_upsert(prev, r),
        }
    }
}

/// No two records share a creation instant.
pub open spec fn keys_unique(s: Seq<RecordView>) -> bool {
    forall|i: int, j: int|
        0 <= i < j < s.len() ==> (#[trigger] s[i]).created != (#[trigger] s[j]).created
}

pub proof fn lemma_first_with_key(s: Seq<RecordView>, key: (int, int))
    ensures
        -1 <= first_with_key(s, key) < s.len(),
        first_with_key(s, key) >= 0 ==> s[first_with_key(s, key)].created == key,
        first_with_key(s, key) == -1 ==> forall|j: int|
            0 <= j < s.len() ==> (#[trigger] s[j]).created != key,
    decreases s.len(),
{
    if s.len() > 0 && s[0].created != key {
        let t = s.drop_first();
        lemma_first_with_key(t, key);
        assert(forall|j: int| 0 <= j < t.len() ==> #[trigger] t[j] == s[j + 1]);
        if first_with_key(s, key) == -1 {
            assert forall|j: int| 0 <= j < s.len() implies (#[trigger] s[j]).created != key by {
                if j > 0 {
                    assert(t[j - 1] == s[j]);
                }
            }
        }
    }
}

pub proof fn lemma_first_with_key_is(s: Seq<RecordView>, key: (int, int), i: int)
    requires
        0 <= i < s.len(),
        s[i].created == key,
        forall|j: int| 0 <= j < i ==> (#[trigger] s[j]).created != key,
    ensures
        first_with_key(s, key) == i,
    decreases i,
{
    if i > 0 {
        let t = s.drop_first();
        assert(forall|j: int| 0 <= j < t.len() ==> #[trigger] t[j] == s[j + 1]);
        lemma_first_with_key_is(t, key, i - 1);
    }
}

pub proof fn lemma_first_with_key_none(s: Seq<RecordView>, key: (int, int))
    requires
        forall|j: int| 0 <= j < s.len() ==> (#[trigger] s[j]).created != key,
    ensures
        first_with_key(s, key) == -1,
    decreases s.len(),
{
    if s.len() > 0 {
        let t = s.drop_first();
        assert(forall|j: int| 0 <= j < t.len() ==> #[trigger] t[j] == s[j + 1]);
        lemma_first_with_key_none(t, key);
    }
}

/// Overwrite-or-append keeps the keys unique.
pub proof fn lemma_upsert_preserves_unique(s: Seq<RecordView>, r: RecordView)
    requires
        keys_unique(s),
    ensures
        keys_unique(spec_upsert(s, r)),
{
    lemma_first_with_key(s, r.created);
    let i = first_with_key(s, r.created);
    if i >= 0 {
        let t = s.update(i, r);
        assert(forall|a: int| 0 <= a < t.len() ==> (#[trigger] t[a]).created == s[a].created);
    } else {
        let t = s.push(r);
        assert forall|a: int, b: int|
            0 <= a < b < t.len() implies (#[trigger] t[a]).created != (
        #[trigger] t[b]).created by {
            if b == s.len() {
                assert(t[a] == s[a]);
            }
        }
    }
}

/// Parsing keys the record set by creation instant: the keys are unique.
pub proof fn lemma_records_keys_unique(es: Seq<EntryView>)
    ensures
        keys_unique(spec_records(es)),
    decreases es.len(),
{
    if es.len() > 0 {
        lemma_records_keys_unique(es.drop_last());
        match spec_record_of(es.last()) {
            None => {},
            Some(r) => {
                lemma_upsert_preserves_unique(spec_records(es.drop_last()), r);
            },
        }
    }
}

/// Parse one extracted entry into a record, exactly as `spec_record_of`
/// says.
fn record_of_entry(e: &ReleaseEntry) -> (r: Option<ReleaseRecord>)
    ensures
        r is Some <==> spec_record_of(e@) is Some,
        r matches Some(rec) ==> spec_record_of(e@) == Some(rec@),
{
    let segs = split_char(e.html_url.as_str(), '/');
    proof {
        assert(segs.deep_view().len() == segs@.len());
    }
    if segs.len() < 8 {
        return None;
    }
    let ts = match parse_rfc3339(e.asset_created.as_str()) {
        Some(t) => t,
        None => {
            return None;
        },
    };
    proof {
        assert(segs.deep_view()[3] == segs@[3]@);
        assert(segs.deep_view()[4] == segs@[4]@);
        assert(segs.deep_view()[7] == segs@[7]@);
    }
    let name = segs[4].clone();
    let version = segs[7].clone();
    let repo_url = github_repo_url(segs[3].as_str(), segs[4].as_str());
    let description: Option<Vec<String>> = match &e.body {
        Some(b) => {
            let mut d: Vec<String> = Vec::new();
            d.push(replace_crlf(b.as_str()));
            proof {
                assert(d.deep_view() =~~= seq![spec_replace_crlf(b@)]);
            }
            Some(d)
        },
        None => None,
    };
    let plugin = PluginData::new(
        name,
        version,
        ts,
        description,
        e.prerelease,
        e.asset_name.clone(),
        repo_url,
        true,
    );
    Some(ReleaseRecord { created: ts, plugin })
}

/// Put a record in a record set, overwriting the record with the same key.
fn upsert(out: &mut Vec<ReleaseRecord>, rec: ReleaseRecord)
    ensures
        final(out).deep_view() == spec_upsert(old(out).deep_view(), rec@),
{
    let ghost s = old(out).deep_view();
    let n = out.len();
    let mut i: usize = 0;
    while i < n
        invariant
            *out == *old(out),
            s == out.deep_view(),
            n == out.len(),
            i <= n,
            forall|j: int| 0 <= j < i ==> (#[trigger] s[j]).created != rec@.created,
        decreases n - i,
    {
        if out[i].created == rec.created {
            proof {
                lemma_first_with_key_is(s, rec@.created, i as int);
            }
            let ghost rv = rec@;
            out.set(i, rec);
            proof {
                assert(out.deep_view() =~~= s.update(i as int, rv));
            }
            return ;
        }
        proof {
            assert(s[i as int].created != rec@.created);
        }
        i = i + 1;
    }
    proof {
        lemma_first_with_key_none(s, rec@.created);
    }
    let ghost rv = rec@;
    out.push(rec);
    proof {
        assert(out.deep_view() =~~= s.push(rv));
    }
}

/// Parse extracted entries into the record set `spec_records` describes.
pub fn records_from_entries(entries: &Vec<ReleaseEntry>) -> (r: Vec<ReleaseRecord>)
    ensures
        r.deep_view() == spec_records(entries.deep_view()),
{
    let ghost ev = entries.deep_view();
    let mut out: Vec<ReleaseRecord> = Vec::new();
    let mut i: usize = 0;
    proof {
        assert(ev.take(0) =~= Seq::<EntryView>::empty());
        assert(out.deep_view() =~~= spec_records(ev.take(0)));
    }
    while i < entries.len()
        invariant
            ev == entries.deep_view(),
            ev.len() == entries.len(),
            i <= entries.len(),
            out.deep_view() == spec_records(ev.take(i as int)),
        decreases entries.len() - i,
    {
        proof {
            assert(ev.take(i + 1).drop_last() =~= ev.take(i as int));
            assert(ev.take(i + 1).last() == ev[i as int]);
        }
        match record_of_entry(&entries[i]) {
            Some(rec) => {
                upsert(&mut out, rec);
            },
            None => (),
        }
        i = i + 1;
    }
    proof {
        assert(ev.take(ev.len() as int) =~= ev);
    }
    out
}

/// The record set a listing payload parses to: the entries its JSON document
/// carries, folded into records.  A function of the payload text alone; a
/// payload that is not a JSON array carries no entries and parses to the
/// empty set.
pub open spec fn payload_records(s: Seq<char>) -> Seq<RecordView> {
    spec_records(crate::json::spec_extract(crate::json::json_of(s)))
}

/// Parse a releases-listing payload into exactly the record set
/// `payload_records` names: entries without a page URL, flag or first asset,
/// with too few URL segments or with an unparseable creation time are
/// skipped, and the keys of what remains are unique.
pub fn response_parser(payload: &str) -> (r: Vec<ReleaseRecord>)
    ensures
        r.deep_view() == payload_records(payload@),
        keys_unique(r.deep_view()),
{
    let entries = extract_entries(payload);
    let r = records_from_entries(&entries);
    proof {
        lemma_records_keys_unique(entries.deep_view());
    }
    r
}

/// The record set without its pre-release records, in order.
pub open spec fn spec_remove_pre(s: Seq<RecordView>) -> Seq<RecordView>
    decreases s.len(),
{
    if s.len() == 0 {
        Seq::<RecordView>::empty()
    } else {
        let p = spec_remove_pre(s.drop_last());
        if s.last().plugin.pre_release {
            p
        } else {
            p.push(s.last())
        }
    }
}

/// Drop every record marked pre-release from the set.
pub fn remove_pre_release(data: &mut Vec<ReleaseRecord>)
    ensures
        final(data).deep_view() == spec_remove_pre(old(data).deep_view()),
{
    let ghost s0 = old(data).deep_view();
    let mut out: Vec<ReleaseRecord> = Vec::new();
    proof {
        assert(s0.skip(0) =~= s0);
        assert(out.deep_view() =~~= spec_remove_pre(s0.take(0)));
    }
    let ghost mut g: int = 0;
    while data.len() > 0
        invariant
            0 <= g <= s0.len(),
            data.deep_view() == s0.skip(g),
            out.deep_view() == spec_remove_pre(s0.take(g)),
        decreases data.len(),
    {
        let ghost pre = data.deep_view();
        let rec = data.remove(0);
        proof {
            assert(pre.len() > 0);
            assert(rec@ == pre[0]);
            assert(pre[0] == s0.skip(g)[0]);
            assert(s0.skip(g)[0] == s0[g]);
            assert(data.deep_view() =~~= pre.drop_first());
            assert(pre.drop_first() =~= s0.skip(g + 1));
            assert(s0.take(g + 1).drop_last() =~= s0.take(g));
            assert(s0.take(g + 1).last() == s0[g]);
        }
        let ghost rv = rec@;
        if !rec.plugin.pre_release {
            let ghost dv0 = out.deep_view();
            out.push(rec);
            proof {
                assert(out.deep_view() =~~= dv0.push(rv));
            }
        }
        proof {
            g = g + 1;
        }
    }
    proof {
        assert(s0.take(s0.len() as int) =~= s0);
        assert(data.deep_view().len() == 0);
        assert(g == s0.len());
    }
    *data = out;
}

/// The index of the record with the greatest creation instant; under equal
/// instants the earlier index stays.
pub open spec fn latest_index(s: Seq<RecordView>) -> int
    decreases s.len(),
{
    if s.len() <= 1 {
        0
    } else {
        let r = latest_index(s.drop_last());
        if ts_lt(s[r].created, s.last().created) {
            s.len() - 1
        } else {
            r
        }
    }
}

/// The record with the greatest creation instant, or `None` of an empty set.
pub open spec fn spec_latest(s: Seq<RecordView>) -> Option<RecordView> {
    if s.len() == 0 {
        None
    } else {
        Some(s[latest_index(s)])
    }
}

/// The selected index is in range and its instant is the maximum.
pub proof fn lemma_latest_is_max(s: Seq<RecordView>)
    requires
        s.len() > 0,
    ensures
        0 <= latest_index(s) < s.len(),
        forall|j: int|
            0 <= j < s.len() ==> ts_le((#[trigger] s[j]).created, s[latest_index(s)].created),
    decreases s.len(),
{
    if s.len() > 1 {
        let t = s.drop_last();
        lemma_latest_is_max(t);
        assert(forall|j: int| 0 <= j < t.len() ==> #[trigger] t[j] == s[j]);
        let r = latest_index(t);
        assert forall|j: int| 0 <= j < s.len() implies ts_le(
            (#[trigger] s[j]).created,
            s[latest_index(s)].created,
        ) by {
            if j < s.len() - 1 {
                assert(t[j] == s[j]);
                assert(ts_le(s[j].created, s[r].created));
            }
        }
    }
}

/// Take the latest record's plugin out of the set, where the set is not
/// empty; the set loses exactly that record.
pub fn get_latest_plugin(data: &mut Vec<ReleaseRecord>) -> (r: Option<PluginData>)
    ensures
        r is None <==> old(data).deep_view().len() == 0,
        r is None ==> *final(data) == *old(data),
        old(data).deep_view().len() > 0 ==> ({
            let s = old(data).deep_view();
            let li = latest_index(s);
            &&& r matches Some(p) && p@ == s[li].plugin
            &&& final(data).deep_view() == s.remove(li)
        }),
{
    let ghost s = old(data).deep_view();
    if data.len() == 0 {
        return None;
    }
    let mut best: usize = 0;
    let mut i: usize = 1;
    proof {
        assert(s.take(1).len() == 1);
        assert(latest_index(s.take(1)) == 0);
    }
    while i < data.len()
        invariant
            *data == *old(data),
            s == data.deep_view(),
            s.len() == data.len(),
            1 <= i <= data.len(),
            0 <= best < i,
            best as int == latest_index(s.take(i as int)),
        decreases data.len() - i,
    {
        proof {
            assert(s.take(i + 1).drop_last() =~= s.take(i as int));
            assert(s.take(i + 1).last() == s[i as int]);
            assert(s.take(i + 1)[best as int] == s[best as int]);
        }
        if data[best].created.lt(&data[i].created) {
            best = i;
        }
        i = i + 1;
    }
    proof {
        assert(s.take(s.len() as int) =~= s);
    }
    let rec = data.remove(best);
    proof {
        assert(data.deep_view() =~~= s.remove(best as int));
    }
    Some(rec.plugin)
}

/// The greatest creation instant in the set, or `None` of an empty set.
pub fn get_latest_date(map: &Vec<ReleaseRecord>) -> (r: Option<Timestamp>)
    ensures
        r is None <==> map.deep_view().len() == 0,
        map.deep_view().len() > 0 ==> (r matches Some(t) && t@ == map.deep_view()[latest_index(
            map.deep_view(),
        )].created),
{
    let ghost s = map.deep_view();
    if map.len() == 0 {
        return None;
    }
    let mut best: usize = 0;
    let mut i: usize = 1;
    proof {
        assert(s.take(1).len() == 1);
        assert(latest_index(s.take(1)) == 0);
    }
    while i < map.len()
        invariant
            s == map.deep_view(),
            s.len() == map.len(),
            1 <= i <= map.len(),
            0 <= best < i,
            best as int == latest_index(s.take(i as int)),
        decreases map.len() - i,
    {
        proof {
            assert(s.take(i + 1).drop_last() =~= s.take(i as int));
            assert(s.take(i + 1).last() == s[i as int]);
            assert(s.take(i + 1)[best as int] == s[best as int]);
        }
        if map[best].created.lt(&map[i].created) {
            best = i;
        }
        i = i + 1;
    }
    proof {
        assert(s.take(s.len() as int) =~= s);
    }
    Some(map[best].created)
}

} // verus!
