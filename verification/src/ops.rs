//! The register, unregister and update operations over the registry.
//!
//! Network and file side effects stay with the caller: the functions here
//! validate the inputs, derive the request to make, parse and select over
//! what came back, and edit the registry — each step with an exact contract.

use vstd::prelude::*;

use crate::data::AppData;
use crate::data::AppView;
use crate::data::PluginData;
use crate::data::PluginView;
use crate::registry::first_with_file;
use crate::registry::first_with_name;
use crate::registry::reg_has_name;
use crate::releases::RecordView;
use crate::releases::ReleaseRecord;
use crate::releases::latest_index;
use crate::releases::get_latest_plugin;
use crate::releases::payload_records;
use crate::releases::remove_pre_release;
use crate::releases::response_parser;
use crate::releases::spec_remove_pre;
use crate::text::parse_i16;
use crate::text::spec_parse_i16;
use crate::text::str_eq;
use crate::url::parse_repository_url;
use crate::url::releases_endpoint;
use crate::url::releases_endpoint_view;
use crate::url::spec_owner;
use crate::url::spec_repo;
use crate::url::valid_repository_url;

verus! {

/// How an operation fails.
#[derive(Clone, Copy, Debug, PartialEq, Eq, Structural)]
pub enum OpError {
    /// The registration URL does not match the repository-URL grammar.
    InvalidUrl,
    /// The request could not be sent or no response came back.
    TransportError,
    /// The remote answered 401: the configured credential is bad or expired.
    Unauthorized,
    /// The remote answered with the carried non-200 status code.
    RemoteError(u16),
    /// The listing payload held no usable release.
    ParseError,
    /// No registered plugin matches the given key.
    NotRegistered,
    /// A plugin of that name is already registered.
    AlreadyRegistered,
    /// A file could not be deleted or written, or the plugin directory is
    /// missing.
    FileSystemError,
    /// The configuration store could not be loaded or saved.
    StoreError,
}

/// Sort a response status: 200 passes, 401 is the credential failure, any
/// other code is a generic remote error.
pub fn classify_status(code: u16) -> (r: Result<(), OpError>)
    ensures
        code == 200 <==> r is Ok,
        code == 401 ==> r == Err::<(), OpError>(OpError::Unauthorized),
        code != 200 && code != 401 ==> r == Err::<(), OpError>(OpError::RemoteError(code)),
{
    if code == 200 {
        Ok(())
    } else if code == 401 {
        Err(OpError::Unauthorized)
    } else {
        Err(OpError::RemoteError(code))
    }
}

/// A releases-listing request for the caller to perform: the endpoint URL,
/// and the bearer token to attach where one is configured.
#[derive(Debug)]
pub struct ApiRequest {
    pub url: String,
    pub token: Option<String>,
}

/// Validate a registration URL and derive the releases-listing request for
/// it.  An URL outside the grammar is rejected as `InvalidUrl` before any
/// request is made; the token is attached exactly where one is configured.
pub fn register_prepare(app: &AppData, url: &String) -> (r: Result<ApiRequest, OpError>)
    ensures
        r is Ok <==> valid_repository_url(url@),
        !valid_repository_url(url@) ==> r == Err::<ApiRequest, OpError>(OpError::InvalidUrl),
        r matches Ok(q) ==> ({
            &&& q.url@ == releases_endpoint_view(spec_owner(url@), spec_repo(url@))
            &&& (app@.github_token.len() == 0 ==> q.token is None)
            &&& (app@.github_token.len() > 0 ==> (q.token matches Some(t) && t@
                == app@.github_token))
        }),
{
    match parse_repository_url(url.as_str()) {
        None => Err(OpError::InvalidUrl),
        Some(rr) => {
            let endpoint = releases_endpoint(rr.owner.as_str(), rr.repo.as_str());
            let token = if app.github_token.as_str().is_empty() {
                None
            } else {
                Some(app.github_token.clone())
            };
            Ok(ApiRequest { url: endpoint, token })
        },
    }
}

/// Put a freshly parsed record in the registry, unless its name is taken: a
/// second registration of the same name fails with `AlreadyRegistered` and
/// leaves the registry exactly as it was.
pub fn register_insert(app: &mut AppData, plugin: PluginData) -> (r: Result<(), OpError>)
    requires
        old(app).wf(),
    ensures
        final(app).wf(),
        reg_has_name(old(app)@.plugins, plugin@.name) ==> r == Err::<(), OpError>(
            OpError::AlreadyRegistered,
        ) && *final(app) == *old(app),
        !reg_has_name(old(app)@.plugins, plugin@.name) ==> r is Ok && final(app)@ == (AppView {
            plugins: old(app)@.plugins.push(plugin@),
            ..old(app)@
        }),
{
    if app.contains_name(&plugin.name) {
        return Err(OpError::AlreadyRegistered);
    }
    app.insert(plugin);
    Ok(())
}

/// Finish a registration from the listing payload the caller fetched: parse
/// it, select the latest release (pre-releases included), and register it.
/// A payload with no usable release is a parse error; a selected release
/// whose name is taken is rejected; otherwise exactly that release's record
/// is appended and a copy of it is handed back.  On any failure the registry
/// is left as it was.
pub fn register_finish(app: &mut AppData, payload: &str) -> (r: Result<PluginData, OpError>)
    requires
        old(app).wf(),
    ensures
        final(app).wf(),
        r is Err ==> *final(app) == *old(app),
        ({
            let recs = payload_records(payload@);
            if recs.len() == 0 {
                r == Err::<PluginData, OpError>(OpError::ParseError)
            } else {
                let sel = recs[latest_index(recs)].plugin;
                if reg_has_name(old(app)@.plugins, sel.name) {
                    r == Err::<PluginData, OpError>(OpError::AlreadyRegistered)
                } else {
                    r matches Ok(p) && p@ == sel && final(app)@ == (AppView {
                        plugins: old(app)@.plugins.push(sel),
                        ..old(app)@
                    })
                }
            }
        }),
{
    let mut records = response_parser(payload);
    match get_latest_plugin(&mut records) {
        None => Err(OpError::ParseError),
        Some(plugin) => {
            let info = plugin.duplicate();
            match register_insert(app, plugin) {
                Ok(_) => Ok(info),
                Err(e) => Err(e),
            }
        },
    }
}

/// Complete a registration from the transport outcome the caller saw: no
/// response at all is a transport error, a non-200 status is classified
/// (401 as the credential failure), and a 200 body is parsed, selected over
/// and registered exactly as `register_finish` says.  On any failure the
/// registry is left as it was.
pub fn register_from_response(app: &mut AppData, response: Option<(u16, String)>) -> (r: Result<
    PluginData,
    OpError,
>)
    requires
        old(app).wf(),
    ensures
        final(app).wf(),
        r is Err ==> *final(app) == *old(app),
        ({
            match response {
                None => r == Err::<PluginData, OpError>(OpError::TransportError),
                Some(p2) => {
                    if p2.0 == 401 {
                        r == Err::<PluginData, OpError>(OpError::Unauthorized)
                    } else if p2.0 != 200 {
                        r == Err::<PluginData, OpError>(OpError::RemoteError(p2.0))
                    } else {
                        let recs = payload_records(p2.1@);
                        if recs.len() == 0 {
                            r == Err::<PluginData, OpError>(OpError::ParseError)
                        } else {
                            let sel = recs[latest_index(recs)].plugin;
                            if reg_has_name(old(app)@.plugins, sel.name) {
                                r == Err::<PluginData, OpError>(OpError::AlreadyRegistered)
                            } else {
                                r matches Ok(p) && p@ == sel && final(app)@ == (AppView {
                                    plugins: old(app)@.plugins.push(sel),
                                    ..old(app)@
                                })
                            }
                        }
                    }
                },
            }
        }),
{
    match response {
        None => Err(OpError::TransportError),
        Some((code, body)) => {
            match classify_status(code) {
                Err(e) => Err(e),
                Ok(_) => register_finish(app, body.as_str()),
            }
        },
    }
}

/// What an update run decides for one plugin.
pub enum UpdatePlan {
    /// The listing held no candidate under the policy: skip, not a failure.
    SkipNoRelease,
    /// The candidate's version equals the recorded one: already current.
    SkipCurrent,
    /// Install this record: delete the old file, download, write, then
    /// commit it to the registry.
    Install(PluginData),
}

/// The mathematical value of an `UpdatePlan`.
pub ghost enum PlanView {
    SkipNoRelease,
    SkipCurrent,
    Install(PluginView),
}

impl View for UpdatePlan {
    type V = PlanView;

    open spec fn view(&self) -> PlanView {
        match self {
            UpdatePlan::SkipNoRelease => PlanView::SkipNoRelease,
            UpdatePlan::SkipCurrent => PlanView::SkipCurrent,
            UpdatePlan::Install(p) => PlanView::Install(p.view()),
        }
    }
}

/// The records an update considers under a policy: all of them, or the
/// stable ones only.
pub open spec fn spec_candidates(rs: Seq<RecordView>, include_pre: bool) -> Seq<RecordView> {
    if include_pre {
        rs
    } else {
        spec_remove_pre(rs)
    }
}

/// The update decision: no candidate — skip; candidate at the recorded
/// version — skip as current; otherwise install the candidate.
pub open spec fn spec_plan(cur: PluginView, rs: Seq<RecordView>, include_pre: bool) -> PlanView {
    let f = spec_candidates(rs, include_pre);
    if f.len() == 0 {
        PlanView::SkipNoRelease
    } else {
        let sel = f[latest_index(f)];
        if sel.plugin.version == cur.version {
            PlanView::SkipCurrent
        } else {
            PlanView::Install(sel.plugin)
        }
    }
}

/// Decide what an update does for one plugin, from the freshly parsed
/// records: filter by policy, select the latest, compare versions.  Version
/// strings are compared for equality only.
pub fn plan_update(current: &PluginData, records: Vec<ReleaseRecord>, include_pre: bool) -> (r:
    UpdatePlan)
    ensures
        r@ == spec_plan(current@, records.deep_view(), include_pre),
{
    let mut recs = records;
    if !include_pre {
        remove_pre_release(&mut recs);
    }
    match get_latest_plugin(&mut recs) {
        None => UpdatePlan::SkipNoRelease,
        Some(p) => {
            if str_eq(p.version.as_str(), current.version.as_str()) {
                UpdatePlan::SkipCurrent
            } else {
                UpdatePlan::Install(p)
            }
        },
    }
}

/// The key an unregistration removes by: the plugin's name, or its backing
/// file's name.
#[derive(Debug)]
pub enum RemovalKey {
    ByName(String),
    ByFileName(String),
}

/// Remove a record by name or by file name.  A missing match fails with
/// `NotRegistered` and leaves the registry as it was; removal by file name
/// takes the first match only.  The removed record is handed back so the
/// caller can delete its backing file — that deletion's outcome never rolls
/// the removal back.
pub fn unregister(app: &mut AppData, key: &RemovalKey) -> (r: Result<PluginData, OpError>)
    ensures
        old(app).wf() ==> final(app).wf(),
        key matches RemovalKey::ByName(nm) ==> ({
            let i = first_with_name(old(app)@.plugins, nm@);
            &&& i >= 0 ==> (r matches Ok(p) && p@ == old(app)@.plugins[i] && final(app)@
                == (AppView { plugins: old(app)@.plugins.remove(i), ..old(app)@ }))
            &&& i < 0 ==> (r == Err::<PluginData, OpError>(OpError::NotRegistered) && *final(app)
                == *old(app))
        }),
        key matches RemovalKey::ByFileName(fm) ==> ({
            let i = first_with_file(old(app)@.plugins, fm@);
            &&& i >= 0 ==> (r matches Ok(p) && p@ == old(app)@.plugins[i] && final(app)@
                == (AppView { plugins: old(app)@.plugins.remove(i), ..old(app)@ }))
            &&& i < 0 ==> (r == Err::<PluginData, OpError>(OpError::NotRegistered) && *final(app)
                == *old(app))
        }),
{
    let removed = match key {
        RemovalKey::ByName(nm) => app.remove(nm),
        RemovalKey::ByFileName(fm) => app.remove_where_file_name_equals(fm),
    };
    match removed {
        Some(p) => Ok(p),
        None => Err(OpError::NotRegistered),
    }
}

/// `n` is one of the names.
pub open spec fn contains_seq(names: Seq<Seq<char>>, n: Seq<char>) -> bool {
    exists|k: int| 0 <= k < names.len() && (#[trigger] names[k]) == n
}

/// The registered names among `names`, in registry order: the named-subset
/// policy silently ignores names that are not registered.
pub open spec fn spec_filter_registered(
    plugins: Seq<PluginView>,
    names: Seq<Seq<char>>,
) -> Seq<Seq<char>>
    decreases plugins.len(),
{
    if plugins.len() == 0 {
        Seq::<Seq<char>>::empty()
    } else {
        let p = spec_filter_registered(plugins.drop_last(), names);
        if contains_seq(names, plugins.last().name) {
            p.push(plugins.last().name)
        } else {
            p
        }
    }
}

/// Whether `n` is one of the names.
fn vec_contains_str(names: &Vec<String>, n: &String) -> (r: bool)
    ensures
        r == contains_seq(names.deep_view(), n@),
{
    let ghost nv = names.deep_view();
    let mut i: usize = 0;
    while i < names.len()
        invariant
            nv == names.deep_view(),
            nv.len() == names.len(),
            i <= names.len(),
            forall|k: int| 0 <= k < i ==> (#[trigger] nv[k]) != n@,
        decreases names.len() - i,
    {
        if str_eq(names[i].as_str(), n.as_str()) {
            proof {
                assert(nv[i as int] == n@);
            }
            return true;
        }
        i = i + 1;
    }
    proof {
        assert(!contains_seq(nv, n@)) by {
            if contains_seq(nv, n@) {
                let k = choose|k: int| 0 <= k < nv.len() && (#[trigger] nv[k]) == n@;
                assert(nv[k] != n@);
            }
        }
    }
    false
}

/// Restrict an update's target set to the names that are registered, in
/// registry order; names not in the registry are silently ignored.
pub fn filter_registered_names(app: &AppData, names: &Vec<String>) -> (r: Vec<String>)
    ensures
        r.deep_view() == spec_filter_registered(app@.plugins, names.deep_view()),
{
    let ghost s = app@.plugins;
    let ghost nv = names.deep_view();
    let mut out: Vec<String> = Vec::new();
    let mut i: usize = 0;
    proof {
        assert(out.deep_view() =~~= spec_filter_registered(s.take(0), nv));
    }
    while i < app.plugins.len()
        invariant
            s == app@.plugins,
            nv == names.deep_view(),
            s.len() == app.plugins.len(),
            i <= app.plugins.len(),
            out.deep_view() == spec_filter_registered(s.take(i as int), nv),
        decreases app.plugins.len() - i,
    {
        proof {
            assert(s.take(i + 1).drop_last() =~= s.take(i as int));
            assert(s.take(i + 1).last() == s[i as int]);
        }
        if vec_contains_str(names, &app.plugins[i].name) {
            let ghost dv0 = out.deep_view();
            out.push(app.plugins[i].name.clone());
            proof {
                assert(out.deep_view() =~~= dv0.push(s[i as int].name));
            }
        }
        i = i + 1;
    }
    proof {
        assert(s.take(s.len() as int) =~= s);
    }
    out
}

/// The remaining-call quota a rate-limit response header reports: its text
/// parsed as a decimal number, `None` where the header is absent or not
/// numeric.
pub fn get_rate_limit_remaining(header_value: Option<&String>) -> (r: Option<i16>)
    ensures
        header_value is None ==> r is None,
        header_value matches Some(s) ==> r == spec_parse_i16(s@),
{
    match header_value {
        None => None,
        Some(s) => parse_i16(s.as_str()),
    }
}

} // verus!
