//! The data model: one plugin's record, and the application data that holds
//! the registry of plugins.
//!
//! Each type has a mathematical view (`PluginView`, `AppView`) over
//! `Seq<char>` and friends; every contract in the library speaks of those
//! views.

use vstd::prelude::*;
use vstd::string::StringExecFns;

use crate::time::Timestamp;
use crate::time::parse_rfc3339;
use crate::time::format_rfc3339;
use crate::time::rfc3339_instant;
use crate::time::rfc3339_display;
use crate::time::now_string;

verus! {

/// The last release the registry knows for one plugin.
#[derive(Debug)]
pub struct PluginData {
    pub name: String,
    pub version: String,
    pub introduced_date: String,
    pub description: Option<Vec<String>>,
    pub pre_release: bool,
    pub file_name: String,
    pub repository_url: String,
    pub latest_in_the_time: bool,
}

/// The mathematical value of a `PluginData`.
pub ghost struct PluginView {
    pub name: Seq<char>,
    pub version: Seq<char>,
    pub introduced_date: Seq<char>,
    pub description: Option<Seq<Seq<char>>>,
    pub pre_release: bool,
    pub file_name: Seq<char>,
    pub repository_url: Seq<char>,
    pub latest_in_the_time: bool,
}

impl View for PluginData {
    type V = PluginView;

    open spec fn view(&self) -> PluginView {
        PluginView {
            name: self.name@,
            version: self.version@,
            introduced_date: self.introduced_date@,
            description: self.description.deep_view(),
            pre_release: self.pre_release,
            file_name: self.file_name@,
            repository_url: self.repository_url@,
            latest_in_the_time: self.latest_in_the_time,
        }
    }
}

impl DeepView for PluginData {
    type V = PluginView;

    open spec fn deep_view(&self) -> PluginView {
        self.view()
    }
}

/// Copy an optional description list, value for value.
fn clone_description(d: &Option<Vec<String>>) -> (r: Option<Vec<String>>)
    ensures
        r.deep_view() == d.deep_view(),
{
    match d {
        None => None,
        Some(v) => {
            let mut out: Vec<String> = Vec::new();
            let mut i: usize = 0;
            proof {
                assert(out.deep_view() =~= v.deep_view().take(0));
            }
            while i < v.len()
                invariant
                    i <= v.len(),
                    out.deep_view() == v.deep_view().take(i as int),
                decreases v.len() - i,
            {
                let ghost dv0 = out.deep_view();
                out.push(v[i].clone());
                proof {
                    assert(out.deep_view() =~~= dv0.push(v@[i as int]@));
                    assert(out.deep_view() =~~= v.deep_view().take(i + 1));
                }
                i = i + 1;
            }
            proof {
                assert(v.deep_view().take(v@.len() as int) =~~= v.deep_view());
            }
            Some(out)
        },
    }
}

/// The text `content` renders a plugin record to.
pub open spec fn content_view(p: PluginView) -> Seq<char> {
    "\n"@ + "- name: "@ + p.name + "\n"@ + "- version: "@ + p.version + "\n"@
        + "- introduced date: "@ + p.introduced_date + "\n"@ + "- pre release: "@ + (
    if p.pre_release {
        "true"@
    } else {
        "false"@
    }) + "\n"@ + "- filename: "@ + p.file_name + "\n"@ + "- repository url: "@
        + p.repository_url + "\n"@
}

impl PluginData {
    /// Build a record for a release created at `date`; the stored
    /// `introduced_date` is the instant rendered as RFC 3339 text.
    pub fn new(
        name: String,
        version: String,
        date: Timestamp,
        description: Option<Vec<String>>,
        pre_release: bool,
        file_name: String,
        repository_url: String,
        is_latest: bool,
    ) -> (r: Self)
        ensures
            r@ == (PluginView {
                name: name@,
                version: version@,
                introduced_date: rfc3339_display(date.secs as int, date.nanos as int),
                description: description.deep_view(),
                pre_release: pre_release,
                file_name: file_name@,
                repository_url: repository_url@,
                latest_in_the_time: is_latest,
            }),
    {
        PluginData {
            name,
            version,
            introduced_date: format_rfc3339(&date),
            description,
            pre_release,
            file_name,
            repository_url,
            latest_in_the_time: is_latest,
        }
    }

    /// A record with every text field empty, not marked pre-release, marked
    /// latest.
    pub fn empty_new() -> (r: Self)
        ensures
            r@.name.len() == 0,
            r@.version.len() == 0,
            r@.introduced_date.len() == 0,
            r@.description is None,
            r@.pre_release == false,
            r@.file_name.len() == 0,
            r@.repository_url.len() == 0,
            r@.latest_in_the_time == true,
    {
        PluginData {
            name: String::new(),
            version: String::new(),
            introduced_date: String::new(),
            description: None,
            pre_release: false,
            file_name: String::new(),
            repository_url: String::new(),
            latest_in_the_time: true,
        }
    }

    /// Render the record as the multi-line text the listing shows.
    pub fn content(&self) -> (r: String)
        ensures
            r@ == content_view(self@),
    {
        let mut out = String::new();
        out.append("\n");
        out.append("- name: ");
        out.append(self.name.as_str());
        out.append("\n");
        out.append("- version: ");
        out.append(self.version.as_str());
        out.append("\n");
        out.append("- introduced date: ");
        out.append(self.introduced_date.as_str());
        out.append("\n");
        out.append("- pre release: ");
        out.append(if self.pre_release {
            "true"
        } else {
            "false"
        });
        out.append("\n");
        out.append("- filename: ");
        out.append(self.file_name.as_str());
        out.append("\n");
        out.append("- repository url: ");
        out.append(self.repository_url.as_str());
        out.append("\n");
        out
    }

    /// A record with the same value in every field.
    pub fn duplicate(&self) -> (r: Self)
        ensures
            r@ == self@,
    {
        PluginData {
            name: self.name.clone(),
            version: self.version.clone(),
            introduced_date: self.introduced_date.clone(),
            description: clone_description(&self.description),
            pre_release: self.pre_release,
            file_name: self.file_name.clone(),
            repository_url: self.repository_url.clone(),
            latest_in_the_time: self.latest_in_the_time,
        }
    }
}

/// The application data: session metadata and the registry of plugins,
/// keyed by plugin name.
#[derive(Debug)]
pub struct AppData {
    pub id: String,
    pub created_date: String,
    pub github_token: String,
    pub plugins: Vec<PluginData>,
}

/// The mathematical value of an `AppData`.
pub ghost struct AppView {
    pub id: Seq<char>,
    pub created_date: Seq<char>,
    pub github_token: Seq<char>,
    pub plugins: Seq<PluginView>,
}

impl View for AppData {
    type V = AppView;

    open spec fn view(&self) -> AppView {
        AppView {
            id: self.id@,
            created_date: self.created_date@,
            github_token: self.github_token@,
            plugins: self.plugins.deep_view(),
        }
    }
}

/// Relies on `uuid::Uuid::new_v4` and its `Display` (the lowercase hyphenated
/// form).  The result is random, so nothing is promised of it.
#[verifier::external_body]
fn new_uuid_string() -> String {
    format!("{}", uuid::Uuid::new_v4())
}

impl AppData {
    /// Fresh application data with an empty registry.  A missing id is drawn
    /// fresh, a missing creation date is the present instant, a missing token
    /// is empty.
    pub fn new(id: Option<String>, date: Option<String>, token: Option<String>) -> (r: Self)
        ensures
            r@.plugins.len() == 0,
            id matches Some(v) ==> r@.id == v@,
            date matches Some(v) ==> r@.created_date == v@,
            token matches Some(v) ==> r@.github_token == v@,
            token is None ==> r@.github_token.len() == 0,
    {
        let r = AppData {
            id: match id {
                Some(v) => v,
                None => new_uuid_string(),
            },
            created_date: match date {
                Some(v) => v,
                None => now_string(),
            },
            github_token: match token {
                Some(v) => v,
                None => String::new(),
            },
            plugins: Vec::new(),
        };
        proof {
            assert(r.plugins.deep_view() =~= Seq::<PluginView>::empty());
        }
        r
    }

    /// The creation date parsed back as an instant, where it is valid
    /// RFC 3339 text.
    pub fn get_created_utc(&self) -> (r: Option<Timestamp>)
        ensures
            r is Some <==> rfc3339_instant(self.created_date@) is Some,
            r matches Some(t) ==> rfc3339_instant(self.created_date@) == Some(
                (t.secs as int, t.nanos as int),
            ),
    {
        parse_rfc3339(self.created_date.as_str())
    }
}

} // verus!
