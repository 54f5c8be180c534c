//! The plugin registry: the name-keyed collection of plugin records inside
//! `AppData`, with its uniqueness invariant and the operations the rest of
//! the library builds on.
//!
//! Names are unique; `insert` overwrites an existing record with the same
//! name rather than appending, so the invariant holds unconditionally.
//! Removal by file name takes the first match only.

use vstd::pervasive::VecAdditionalExecFns;
use vstd::prelude::*;

use crate::data::AppData;
use crate::data::AppView;
use crate::data::PluginData;
use crate::data::PluginView;
use crate::text::str_eq;

verus! {

/// No two records share a name.
pub open spec fn names_unique(s: Seq<PluginView>) -> bool {
    forall|i: int, j: int|
        0 <= i < j < s.len() ==> (#[trigger] s[i]).name != (#[trigger] s[j]).name
}

/// The index of the first record named `n`, or `-1` where there is none.
pub open spec fn first_with_name(s: Seq<PluginView>, n: Seq<char>) -> int
    decreases s.len(),
{
    if s.len() == 0 {
        -1
    } else if s[0].name == n {
        0
    } else {
        let r = first_with_name(s.drop_first(), n);
        if r < 0 {
            -1
        } else {
            r + 1
        }
    }
}

/// Some record is named `n`.
pub open spec fn reg_has_name(s: Seq<PluginView>, n: Seq<char>) -> bool {
    first_with_name(s, n) >= 0
}

/// The index of the first record whose file name is `f`, or `-1`.
pub open spec fn first_with_file(s: Seq<PluginView>, f: Seq<char>) -> int
    decreases s.len(),
{
    if s.len() == 0 {
        -1
    } else if s[0].file_name == f {
        0
    } else {
        let r = first_with_file(s.drop_first(), f);
        if r < 0 {
            -1
        } else {
            r + 1
        }
    }
}

/// What `insert` does: overwrite the record with the same name, else append.
pub open spec fn spec_insert(s: Seq<PluginView>, p: PluginView) -> Seq<PluginView> {
    let i = first_with_name(s, p.name);
    if i >= 0 {
        s.update(i, p)
    } else {
        s.push(p)
    }
}

pub proof fn lemma_first_with_name(s: Seq<PluginView>, n: Seq<char>)
    ensures
        -1 <= first_with_name(s, n) < s.len(),
        first_with_name(s, n) >= 0 ==> s[first_with_name(s, n)].name == n,
        forall|j: int|
            0 <= j < first_with_name(s, n) ==> (#[trigger] s[j]).name != n,
        first_with_name(s, n) == -1 ==> forall|j: int|
            0 <= j < s.len() ==> (#[trigger] s[j]).name != n,
    decreases s.len(),
{
    if s.len() > 0 && s[0].name != n {
        let t = s.drop_first();
        lemma_first_with_name(t, n);
        assert(forall|j: int| 0 <= j < t.len() ==> #[trigger] t[j] == s[j + 1]);
        let i = first_with_name(s, n);
        assert forall|j: int| 0 <= j < i implies (#[trigger] s[j]).name != n by {
            if j > 0 {
                assert(t[j - 1] == s[j]);
            }
        }
        if i == -1 {
            assert forall|j: int| 0 <= j < s.len() implies (#[trigger] s[j]).name != n by {
                if j > 0 {
                    assert(t[j - 1] == s[j]);
                }
            }
        }
    }
}

pub proof fn lemma_first_with_name_is(s: Seq<PluginView>, n: Seq<char>, i: int)
    requires
        0 <= i < s.len(),
        s[i].name == n,
        forall|j: int| 0 <= j < i ==> (#[trigger] s[j]).name != n,
    ensures
        first_with_name(s, n) == i,
    decreases i,
{
    if i > 0 {
        let t = s.drop_first();
        assert(forall|j: int| 0 <= j < t.len() ==> #[trigger] t[j] == s[j + 1]);
        lemma_first_with_name_is(t, n, i - 1);
    }
}

pub proof fn lemma_first_with_name_none(s: Seq<PluginView>, n: Seq<char>)
    requires
        forall|j: int| 0 <= j < s.len() ==> (#[trigger] s[j]).name != n,
    ensures
        first_with_name(s, n) == -1,
    decreases s.len(),
{
    if s.len() > 0 {
        let t = s.drop_first();
        assert(forall|j: int| 0 <= j < t.len() ==> #[trigger] t[j] == s[j + 1]);
        lemma_first_with_name_none(t, n);
    }
}

pub proof fn lemma_first_with_file_is(s: Seq<PluginView>, f: Seq<char>, i: int)
    requires
        0 <= i < s.len(),
        s[i].file_name == f,
        forall|j: int| 0 <= j < i ==> (#[trigger] s[j]).file_name != f,
    ensures
        first_with_file(s, f) == i,
    decreases i,
{
    if i > 0 {
        let t = s.drop_first();
        assert(forall|j: int| 0 <= j < t.len() ==> #[trigger] t[j] == s[j + 1]);
        lemma_first_with_file_is(t, f, i - 1);
    }
}

pub proof fn lemma_first_with_file_none(s: Seq<PluginView>, f: Seq<char>)
    requires
        forall|j: int| 0 <= j < s.len() ==> (#[trigger] s[j]).file_name != f,
    ensures
        first_with_file(s, f) == -1,
    decreases s.len(),
{
    if s.len() > 0 {
        let t = s.drop_first();
        assert(forall|j: int| 0 <= j < t.len() ==> #[trigger] t[j] == s[j + 1]);
        lemma_first_with_file_none(t, f);
    }
}

/// Removing any record keeps the names unique.
pub proof fn lemma_remove_preserves_unique(s: Seq<PluginView>, i: int)
    requires
        names_unique(s),
        0 <= i < s.len(),
    ensures
        names_unique(s.remove(i)),
{
    let t = s.remove(i);
    assert forall|a: int, b: int|
        0 <= a < b < t.len() implies (#[trigger] t[a]).name != (#[trigger] t[b]).name by {
        assert(t[a] == (if a < i {
            s[a]
        } else {
            s[a + 1]
        }));
        assert(t[b] == (if b < i {
            s[b]
        } else {
            s[b + 1]
        }));
    }
}

/// Overwrite-or-append keeps the names unique.
pub proof fn lemma_insert_preserves_unique(s: Seq<PluginView>, p: PluginView)
    requires
        names_unique(s),
    ensures
        names_unique(spec_insert(s, p)),
{
    lemma_first_with_name(s, p.name);
    let i = first_with_name(s, p.name);
    if i >= 0 {
        let t = s.update(i, p);
        assert(forall|a: int| 0 <= a < t.len() ==> (#[trigger] t[a]).name == s[a].name);
    } else {
        let t = s.push(p);
        assert forall|a: int, b: int|
            0 <= a < b < t.len() implies (#[trigger] t[a]).name != (#[trigger] t[b]).name by {
            if b == s.len() {
                assert(t[a] == s[a]);
            }
        }
    }
}

/// The registry that inserting each record in turn builds up: every
/// duplicate name overwrites, so the later record under a name wins.
pub open spec fn spec_insert_all(s: Seq<PluginView>, recs: Seq<PluginView>) -> Seq<PluginView>
    decreases recs.len(),
{
    if recs.len() == 0 {
        s
    } else {
        spec_insert_all(spec_insert(s, recs[0]), recs.drop_first())
    }
}

/// The names of the records, in registry order.
pub open spec fn names_of(s: Seq<PluginView>) -> Seq<Seq<char>>
    decreases s.len(),
{
    if s.len() == 0 {
        Seq::<Seq<char>>::empty()
    } else {
        names_of(s.drop_last()).push(s.last().name)
    }
}

/// The names of the records not marked pre-release, in registry order.
pub open spec fn non_pre_names(s: Seq<PluginView>) -> Seq<Seq<char>>
    decreases s.len(),
{
    if s.len() == 0 {
        Seq::<Seq<char>>::empty()
    } else {
        let p = non_pre_names(s.drop_last());
        if s.last().pre_release {
            p
        } else {
            p.push(s.last().name)
        }
    }
}

impl AppData {
    /// The registry invariant: plugin names are unique.
    pub open spec fn wf(&self) -> bool {
        names_unique(self@.plugins)
    }

    /// Whether a record named `name` is registered.
    pub fn contains_name(&self, name: &String) -> (r: bool)
        ensures
            r == reg_has_name(self@.plugins, name@),
    {
        let ghost s = self@.plugins;
        let mut i: usize = 0;
        while i < self.plugins.len()
            invariant
                s == self@.plugins,
                i <= self.plugins.len(),
                s.len() == self.plugins.len(),
                forall|j: int| 0 <= j < i ==> (#[trigger] s[j]).name != name@,
            decreases self.plugins.len() - i,
        {
            if str_eq(self.plugins[i].name.as_str(), name.as_str()) {
                proof {
                    lemma_first_with_name_is(s, name@, i as int);
                }
                return true;
            }
            i = i + 1;
        }
        proof {
            lemma_first_with_name_none(s, name@);
        }
        false
    }

    /// Look a record up by name.
    pub fn get(&self, name: &String) -> (r: Option<&PluginData>)
        ensures
            r is Some <==> reg_has_name(self@.plugins, name@),
            r matches Some(p) ==> p@ == self@.plugins[first_with_name(
                self@.plugins,
                name@,
            )],
    {
        let ghost s = self@.plugins;
        let mut i: usize = 0;
        while i < self.plugins.len()
            invariant
                s == self@.plugins,
                i <= self.plugins.len(),
                s.len() == self.plugins.len(),
                forall|j: int| 0 <= j < i ==> (#[trigger] s[j]).name != name@,
            decreases self.plugins.len() - i,
        {
            if str_eq(self.plugins[i].name.as_str(), name.as_str()) {
                proof {
                    lemma_first_with_name_is(s, name@, i as int);
                }
                return Some(&self.plugins[i]);
            }
            i = i + 1;
        }
        proof {
            lemma_first_with_name_none(s, name@);
        }
        None
    }

    /// Put a record in the registry: a record with the same name is
    /// overwritten, any other record is untouched.
    pub fn insert(&mut self, plugin: PluginData)
        requires
            old(self).wf(),
        ensures
            final(self).wf(),
            final(self)@ == (AppView {
                plugins: spec_insert(old(self)@.plugins, plugin@),
                ..old(self)@
            }),
    {
        let ghost s = old(self)@.plugins;
        let n = self.plugins.len();
        let mut i: usize = 0;
        while i < n
            invariant
                *self == *old(self),
                s == self@.plugins,
                names_unique(s),
                n == self.plugins.len(),
                i <= n,
                forall|j: int| 0 <= j < i ==> (#[trigger] s[j]).name != plugin@.name,
            decreases n - i,
        {
            if str_eq(self.plugins[i].name.as_str(), plugin.name.as_str()) {
                proof {
                    lemma_first_with_name_is(s, plugin@.name, i as int);
                    lemma_insert_preserves_unique(s, plugin@);
                }
                let ghost p = plugin@;
                self.plugins.set(i, plugin);
                proof {
                    assert(self.plugins.deep_view() =~~= s.update(i as int, p));
                }
                return ;
            }
            i = i + 1;
        }
        proof {
            lemma_first_with_name_none(s, plugin@.name);
            lemma_insert_preserves_unique(s, plugin@);
        }
        let ghost p = plugin@;
        self.plugins.push(plugin);
        proof {
            assert(self.plugins.deep_view() =~~= s.push(p));
        }
    }

    /// Remove the record named `name`, where there is one; hand it back.
    pub fn remove(&mut self, name: &String) -> (r: Option<PluginData>)
        ensures
            ({
                let i = first_with_name(old(self)@.plugins, name@);
                &&& i >= 0 ==> (r matches Some(p) && p@ == old(self)@.plugins[i]
                    && final(self)@ == (AppView {
                    plugins: old(self)@.plugins.remove(i),
                    ..old(self)@
                }))
                &&& i < 0 ==> r is None && final(self)@ == old(self)@ && *final(self) == *old(
                    self,
                )
            }),
            old(self).wf() ==> final(self).wf(),
    {
        let ghost s = old(self)@.plugins;
        let n = self.plugins.len();
        let mut i: usize = 0;
        while i < n
            invariant
                *self == *old(self),
                s == self@.plugins,
                n == self.plugins.len(),
                i <= n,
                forall|j: int| 0 <= j < i ==> (#[trigger] s[j]).name != name@,
            decreases n - i,
        {
            if str_eq(self.plugins[i].name.as_str(), name.as_str()) {
                proof {
                    lemma_first_with_name_is(s, name@, i as int);
                    if names_unique(s) {
                        lemma_remove_preserves_unique(s, i as int);
                    }
                }
                let removed = self.plugins.remove(i);
                proof {
                    assert(self.plugins.deep_view() =~~= s.remove(i as int));
                }
                return Some(removed);
            }
            i = i + 1;
        }
        proof {
            lemma_first_with_name_none(s, name@);
        }
        None
    }

    /// Remove the first record whose backing file is `file_name`, where there
    /// is one; hand it back.  Later records with the same file name stay.
    pub fn remove_where_file_name_equals(&mut self, file_name: &String) -> (r: Option<
        PluginData,
    >)
        ensures
            ({
                let i = first_with_file(old(self)@.plugins, file_name@);
                &&& i >= 0 ==> (r matches Some(p) && p@ == old(self)@.plugins[i]
                    && final(self)@ == (AppView {
                    plugins: old(self)@.plugins.remove(i),
                    ..old(self)@
                }))
                &&& i < 0 ==> r is None && final(self)@ == old(self)@ && *final(self) == *old(
                    self,
                )
            }),
            old(self).wf() ==> final(self).wf(),
    {
        let ghost s = old(self)@.plugins;
        let n = self.plugins.len();
        let mut i: usize = 0;
        while i < n
            invariant
                *self == *old(self),
                s == self@.plugins,
                n == self.plugins.len(),
                i <= n,
                forall|j: int| 0 <= j < i ==> (#[trigger] s[j]).file_name != file_name@,
            decreases n - i,
        {
            if str_eq(self.plugins[i].file_name.as_str(), file_name.as_str()) {
                proof {
                    lemma_first_with_file_is(s, file_name@, i as int);
                    if names_unique(s) {
                        lemma_remove_preserves_unique(s, i as int);
                    }
                }
                let removed = self.plugins.remove(i);
                proof {
                    assert(self.plugins.deep_view() =~~= s.remove(i as int));
                }
                return Some(removed);
            }
            i = i + 1;
        }
        proof {
            lemma_first_with_file_none(s, file_name@);
        }
        None
    }

    /// Every registered name, in registry order.
    pub fn names(&self) -> (r: Vec<String>)
        ensures
            r.deep_view() == names_of(self@.plugins),
    {
        let ghost s = self@.plugins;
        let mut out: Vec<String> = Vec::new();
        let mut i: usize = 0;
        proof {
            assert(out.deep_view() =~~= names_of(s.take(0)));
        }
        while i < self.plugins.len()
            invariant
                s == self@.plugins,
                i <= self.plugins.len(),
                s.len() == self.plugins.len(),
                out.deep_view() == names_of(s.take(i as int)),
            decreases self.plugins.len() - i,
        {
            let ghost dv0 = out.deep_view();
            out.push(self.plugins[i].name.clone());
            proof {
                assert(s.take(i + 1).drop_last() =~= s.take(i as int));
                assert(out.deep_view() =~~= dv0.push(s[i as int].name));
            }
            i = i + 1;
        }
        proof {
            assert(s.take(s.len() as int) =~= s);
        }
        out
    }

    /// Rebuild application data from loaded parts.  Records are inserted one
    /// by one with overwrite-on-duplicate: every given record lands in the
    /// registry, the later record under a duplicated name winning, so the
    /// result is well formed whatever the parts held.
    pub fn from_parts(
        id: String,
        created_date: String,
        github_token: String,
        plugins: Vec<PluginData>,
    ) -> (r: AppData)
        ensures
            r.wf(),
            r@.id == id@,
            r@.created_date == created_date@,
            r@.github_token == github_token@,
            r@.plugins == spec_insert_all(Seq::<PluginView>::empty(), plugins.deep_view()),
    {
        let ghost given = plugins.deep_view();
        let mut r = AppData { id, created_date, github_token, plugins: Vec::new() };
        proof {
            assert(r.plugins.deep_view() =~~= Seq::<PluginView>::empty());
        }
        let mut rest = plugins;
        while rest.len() > 0
            invariant
                r.wf(),
                r@.id == id@,
                r@.created_date == created_date@,
                r@.github_token == github_token@,
                spec_insert_all(r@.plugins, rest.deep_view()) == spec_insert_all(
                    Seq::<PluginView>::empty(),
                    given,
                ),
            decreases rest.len(),
        {
            let ghost pre = rest.deep_view();
            let p = rest.remove(0);
            proof {
                assert(p@ == pre[0]);
                assert(rest.deep_view() =~~= pre.drop_first());
            }
            r.insert(p);
        }
        proof {
            assert(rest.deep_view().len() == 0);
            assert(spec_insert_all(r@.plugins, rest.deep_view()) == r@.plugins);
        }
        r
    }
}

/// The names of the registered plugins not marked pre-release, or `None`
/// where the registry is empty.
pub fn get_not_prerelease_plugins_name(app: &AppData) -> (r: Option<Vec<String>>)
    ensures
        r is None <==> app@.plugins.len() == 0,
        r matches Some(v) ==> v.deep_view() == non_pre_names(app@.plugins),
{
    if app.plugins.len() == 0 {
        return None;
    }
    let ghost s = app@.plugins;
    let mut out: Vec<String> = Vec::new();
    let mut i: usize = 0;
    proof {
        assert(out.deep_view() =~~= non_pre_names(s.take(0)));
    }
    while i < app.plugins.len()
        invariant
            s == app@.plugins,
            i <= app.plugins.len(),
            s.len() == app.plugins.len(),
            out.deep_view() == non_pre_names(s.take(i as int)),
        decreases app.plugins.len() - i,
    {
        proof {
            assert(s.take(i + 1).drop_last() =~= s.take(i as int));
        }
        if !app.plugins[i].pre_release {
            let ghost dv0 = out.deep_view();
            out.push(app.plugins[i].name.clone());
            proof {
                assert(out.deep_view() =~~= dv0.push(s[i as int].name));
            }
        }
        i = i + 1;
    }
    proof {
        assert(s.take(s.len() as int) =~= s);
    }
    Some(out)
}

} // verus!
