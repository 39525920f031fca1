//! Template registry: templates by name, each name holding several
//! versions.

use crate::json::JsonValue;
use crate::prompt::error::{PromptError, PromptErrorView};
use crate::prompt::template::{rendered, values_view, PromptTemplate, TemplateView};
use crate::prompt::version::{sort_versions_descending, version_sign, version_sign_exec};
use crate::strmap::StrMap;
use crate::text::{owned, sort_strings, str_le};
use vstd::prelude::*;

verus! {

/// Templates by name, then by version.
pub type RegistryView = Map<Seq<char>, Map<Seq<char>, TemplateView>>;

/// The outcome of registering `t`: a conflict when its name already holds
/// its version, else the registry with `t` added under its name and version.
pub open spec fn register_outcome(r: RegistryView, t: TemplateView) -> Result<
    RegistryView,
    PromptErrorView,
> {
    if r.contains_key(t.name) && r[t.name].contains_key(t.version) {
        Err(
            PromptErrorView::VersionConflict(
                "template '"@ + t.name + "' version '"@ + t.version + "' already exists"@,
            ),
        )
    } else {
        let versions = if r.contains_key(t.name) {
            r[t.name]
        } else {
            Map::empty()
        };
        Ok(r.insert(t.name, versions.insert(t.version, t)))
    }
}

/// `t` is a latest version of `name`: no other version of it compares
/// higher.
pub open spec fn is_latest(r: RegistryView, name: Seq<char>, t: TemplateView) -> bool {
    &&& r.contains_key(name)
    &&& r[name].contains_key(t.version)
    &&& r[name][t.version] == t
    &&& forall|w: Seq<char>| #[trigger] r[name].contains_key(w) ==> version_sign(w, t.version) <= 0
}

/// The number of versions under the names in `keys`.
pub open spec fn versions_total(r: RegistryView, keys: Seq<Seq<char>>) -> int
    decreases keys.len(),
{
    if keys.len() == 0 {
        0
    } else {
        versions_total(r, keys.drop_last()) + r[keys.last()].len()
    }
}

pub open spec fn versions_of(s: StrMap<PromptTemplate>) -> Map<Seq<char>, TemplateView> {
    s@.map_values(|t: PromptTemplate| t@)
}

/// Templates by name and version.
#[derive(Debug)]
pub struct TemplateRegistry {
    templates: StrMap<StrMap<PromptTemplate>>,
}

impl TemplateRegistry {
    #[verifier::type_invariant]
    closed spec fn inv(self) -> bool {
        forall|n: Seq<char>, v: Seq<char>|
            #![trigger self.templates@[n]@[v]]
            self.templates@.contains_key(n) && self.templates@[n]@.contains_key(v) ==> {
                &&& self.templates@[n]@[v]@.name == n
                &&& self.templates@[n]@[v]@.version == v
            }
    }

    /// Templates by name, then by version.
    pub closed spec fn view_registry(&self) -> RegistryView {
        self.templates@.map_values(|m: StrMap<PromptTemplate>| versions_of(m))
    }

    /// The names in the order they were first registered.
    pub closed spec fn name_order(&self) -> Seq<Seq<char>> {
        self.templates.key_order()
    }

    pub fn new() -> (r: Self)
        ensures
            r.view_registry() == RegistryView::empty(),
            r.name_order() == Seq::<Seq<char>>::empty(),
    {
        let r = TemplateRegistry { templates: StrMap::new() };
        assert(r.view_registry() =~= RegistryView::empty());
        r
    }

    /// Adds `template` under its name and version, unless that version is
    /// already registered.
    pub fn register(&mut self, template: PromptTemplate) -> (res: Result<(), PromptError>)
        ensures
            match register_outcome(old(self).view_registry(), template@) {
                Ok(r) => res is Ok && final(self).view_registry() == r,
                Err(e) => (res matches Err(err) && err@ == e) && final(self).view_registry() == old(
                    self,
                ).view_registry(),
            },
    {
        proof {
            use_type_invariant(&*self);
        }
        let ghost old_view = self.view_registry();
        let name = template.name.clone();
        let mut templates = StrMap::new();
        std::mem::swap(&mut templates, &mut self.templates);
        let taken = templates.remove(name.as_str());
        let mut versions = match taken {
            Some(m) => m,
            None => StrMap::new(),
        };
        if versions.contains_key(template.version.as_str()) {
            proof {
                reveal_strlit("template '");
                reveal_strlit("' version '");
                reveal_strlit("' already exists");
            }
            let mut m = owned("template '");
            m.append(template.name.as_str());
            m.append("' version '");
            m.append(template.version.as_str());
            m.append("' already exists");
            templates.insert(name, versions);
            self.templates = templates;
            assert(self.templates@ =~= old(self).templates@);
            return Err(PromptError::VersionConflict(m));
        }
        let ghost tv = template@;
        let ghost before_versions = versions@;
        let version = template.version.clone();
        versions.insert(version, template);
        templates.insert(name, versions);
        self.templates = templates;
        proof {
            let expected = match register_outcome(old_view, tv) {
                Ok(r) => r,
                Err(_) => old_view,
            };
            assert(versions_of(versions) =~= (if old_view.contains_key(tv.name) {
                old_view[tv.name]
            } else {
                Map::empty()
            }).insert(tv.version, tv));
            assert(self.view_registry() =~= expected);
        }
        Ok(())
    }

    /// The template `name` at `version`, or, without a version, a latest
    /// version of `name`.
    pub fn get(&self, name: &str, version: Option<&str>) -> (r: Option<&PromptTemplate>)
        ensures
            match version {
                Some(v) => match r {
                    Some(t) => self.view_registry().contains_key(name@)
                        && self.view_registry()[name@].contains_key(v@)
                        && t@ == self.view_registry()[name@][v@],
                    None => !(self.view_registry().contains_key(name@)
                        && self.view_registry()[name@].contains_key(v@)),
                },
                None => match r {
                    Some(t) => is_latest(self.view_registry(), name@, t@)
                        && self.view_registry()[name@].len() > 0,
                    None => !self.view_registry().contains_key(name@)
                        || self.view_registry()[name@].len() == 0,
                },
            },
    {
        proof {
            use_type_invariant(self);
        }
        let versions = match self.templates.get(name) {
            Some(m) => m,
            None => return None,
        };
        match version {
            Some(v) => versions.get(v),
            None => {
                let n = versions.len();
                proof {
                    assert(versions_of(*versions).dom() =~= versions@.dom());
                }
                if n == 0 {
                    return None;
                }
                let mut best: usize = 0;
                let mut i: usize = 1;
                let ghost ko = versions.key_order();
                proof {
                    crate::prompt::version::law_compare_versions_reflexive(ko[0]);
                }
                while i < n
                    invariant
                        ko == versions.key_order(),
                        n == ko.len(),
                        forall|k: Seq<char>| ko.contains(k) <==> versions@.contains_key(k),
                        forall|k: Seq<char>| #[trigger] versions@.contains_key(k) ==> versions@[k]@.version == k,
                        0 <= best < i <= n,
                        forall|j: int| 0 <= j < i ==> version_sign(#[trigger] ko[j], ko[best as int]) <= 0,
                    decreases n - i,
                {
                    let cand = versions.value_at(i);
                    let cur = versions.value_at(best);
                    assert(ko.contains(ko[i as int]) && ko.contains(ko[best as int]));
                    if version_sign_exec(cand.version.as_str(), cur.version.as_str()) > 0 {
                        proof {
                            crate::prompt::version::law_compare_versions_antisymmetric(
                                ko[i as int],
                                ko[best as int],
                            );
                            assert forall|j: int| 0 <= j < i + 1 implies version_sign(
                                #[trigger] ko[j],
                                ko[i as int],
                            ) <= 0 by {
                                if j < i {
                                    crate::prompt::version::law_compare_versions_transitive(
                                        ko[j],
                                        ko[best as int],
                                        ko[i as int],
                                    );
                                    crate::prompt::version::law_compare_versions_antisymmetric(
                                        ko[i as int],
                                        ko[best as int],
                                    );
                                } else {
                                    crate::prompt::version::law_compare_versions_reflexive(ko[j]);
                                }
                            }
                        }
                        best = i;
                    } else {
                        proof {
                            crate::prompt::version::law_compare_versions_antisymmetric(
                                ko[i as int],
                                ko[best as int],
                            );
                        }
                    }
                    i = i + 1;
                }
                proof {
                    crate::prompt::version::law_compare_versions_reflexive(ko[0]);
                    assert forall|w: Seq<char>| #[trigger] versions@.contains_key(w) implies version_sign(
                        w,
                        ko[best as int],
                    ) <= 0 by {
                        assert(ko.contains(w));
                        let j = choose|j: int| 0 <= j < ko.len() && ko[j] == w;
                        assert(version_sign(ko[j], ko[best as int]) <= 0);
                    }
                    assert(ko.contains(ko[best as int]));
                }
                Some(versions.value_at(best))
            },
        }
    }

    /// A latest version of `name`.
    pub fn get_latest(&self, name: &str) -> (r: Option<&PromptTemplate>)
        ensures
            match r {
                Some(t) => is_latest(self.view_registry(), name@, t@)
                    && self.view_registry()[name@].len() > 0,
                None => !self.view_registry().contains_key(name@) || self.view_registry()[name@].len()
                    == 0,
            },
    {
        self.get(name, None)
    }

    /// The template `name` at `version`.
    pub fn get_version(&self, name: &str, version: &str) -> (r: Option<&PromptTemplate>)
        ensures
            match r {
                Some(t) => self.view_registry().contains_key(name@)
                    && self.view_registry()[name@].contains_key(version@) && t@
                    == self.view_registry()[name@][version@],
                None => !(self.view_registry().contains_key(name@)
                    && self.view_registry()[name@].contains_key(version@)),
            },
    {
        self.get(name, Some(version))
    }

    /// Whether a template of that name is registered (possibly with no
    /// version left).
    pub fn has_template(&self, name: &str) -> (b: bool)
        ensures
            b == self.view_registry().contains_key(name@),
    {
        self.templates.contains_key(name)
    }

    pub fn has_version(&self, name: &str, version: &str) -> (b: bool)
        ensures
            b == (self.view_registry().contains_key(name@) && self.view_registry()[name@].contains_key(
                version@,
            )),
    {
        match self.templates.get(name) {
            Some(m) => m.contains_key(version),
            None => false,
        }
    }

    /// The registered names in ascending order.
    pub fn list_templates(&self) -> (names: Vec<String>)
        ensures
            names@.len() == self.view_registry().len(),
            forall|i: int, j: int| 0 <= i < j < names@.len() ==> str_le(names@[i]@, names@[j]@),
            forall|i: int| 0 <= i < names@.len() ==> self.view_registry().contains_key(#[trigger] names@[i]@),
            forall|k: Seq<char>| #[trigger] self.view_registry().contains_key(k) ==> exists|i: int|
                0 <= i < names@.len() && names@[i]@ == k,
    {
        let keys = self.templates.keys();
        let n = self.templates.len();
        let names = sort_strings(keys);
        proof {
            assert(self.view_registry().dom() =~= self.templates@.dom());
            let ko = self.templates.key_order();
            assert forall|i: int| 0 <= i < names@.len() implies self.view_registry().contains_key(
                #[trigger] names@[i]@,
            ) by {
                assert(keys@.contains(names@[i]));
                let j = choose|j: int| 0 <= j < keys@.len() && keys@[j] == names@[i];
                assert(ko.contains(ko[j]));
            }
            assert forall|k: Seq<char>| #[trigger] self.view_registry().contains_key(k) implies exists|i: int|
                0 <= i < names@.len() && names@[i]@ == k by {
                assert(ko.contains(k));
                let j = choose|j: int| 0 <= j < ko.len() && ko[j] == k;
                assert(names@.contains(keys@[j]));
                let i = choose|i: int| 0 <= i < names@.len() && names@[i] == keys@[j];
                assert(names@[i]@ == k);
            }
        }
        names
    }

    /// The versions of `name` from the highest to the lowest (none for an
    /// unknown name).
    pub fn list_versions(&self, name: &str) -> (versions: Vec<String>)
        ensures
            !self.view_registry().contains_key(name@) ==> versions@.len() == 0,
            self.view_registry().contains_key(name@) ==> {
                &&& versions@.len() == self.view_registry()[name@].len()
                &&& forall|i: int, j: int|
                    0 <= i < j < versions@.len() ==> version_sign(versions@[i]@, versions@[j]@) >= 0
                &&& forall|i: int|
                    0 <= i < versions@.len() ==> self.view_registry()[name@].contains_key(
                        #[trigger] versions@[i]@,
                    )
                &&& forall|k: Seq<char>| #[trigger] self.view_registry()[name@].contains_key(k)
                    ==> exists|i: int| 0 <= i < versions@.len() && versions@[i]@ == k
                &&& forall|i: int, j: int|
                    0 <= i < j < versions@.len() ==> versions@[i]@ != versions@[j]@
            },
    {
        match self.templates.get(name) {
            Some(m) => {
                let keys = m.keys();
                let n = m.len();
                let sorted = sort_versions_descending(keys);
                proof {
                    assert(versions_of(*m).dom() =~= m@.dom());
                    let ko = m.key_order();
                    assert forall|i: int| 0 <= i < sorted@.len() implies versions_of(
                        *m,
                    ).contains_key(#[trigger] sorted@[i]@) by {
                        assert(keys@.contains(sorted@[i]));
                        let j = choose|j: int| 0 <= j < keys@.len() && keys@[j] == sorted@[i];
                        assert(ko.contains(ko[j]));
                    }
                    assert forall|k: Seq<char>| #[trigger] versions_of(*m).contains_key(k) implies exists|i: int|
                        0 <= i < sorted@.len() && sorted@[i]@ == k by {
                        assert(ko.contains(k));
                        let j = choose|j: int| 0 <= j < ko.len() && ko[j] == k;
                        assert(sorted@.contains(keys@[j]));
                        let i = choose|i: int| 0 <= i < sorted@.len() && sorted@[i] == keys@[j];
                        assert(sorted@[i]@ == k);
                    }
                    let vs = sorted@.map_values(|x: String| x@);
                    assert(vs.to_set() =~= ko.to_set()) by {
                        assert forall|k: Seq<char>| vs.to_set().contains(k) implies ko.to_set().contains(k) by {
                            let i = choose|i: int| 0 <= i < vs.len() && vs[i] == k;
                            assert(versions_of(*m).contains_key(sorted@[i]@));
                        }
                        assert forall|k: Seq<char>| ko.to_set().contains(k) implies vs.to_set().contains(k) by {
                            assert(ko.contains(k));
                            assert(versions_of(*m).contains_key(k));
                            let i = choose|i: int| 0 <= i < sorted@.len() && sorted@[i]@ == k;
                            assert(vs[i] == k);
                        }
                    }
                    ko.unique_seq_to_set();
                    vs.lemma_no_dup_set_cardinality();
                    assert forall|i: int, j: int| 0 <= i < j < sorted@.len() implies sorted@[i]@
                        != sorted@[j]@ by {
                        assert(vs[i] == sorted@[i]@);
                        assert(vs[j] == sorted@[j]@);
                    }
                }
                sorted
            },
            None => Vec::new(),
        }
    }

    /// Renders the template `name` at `version` (a latest one without a
    /// version) with `values`.
    pub fn render(&self, name: &str, version: Option<&str>, values: &StrMap<JsonValue>) -> (r: Result<
        String,
        PromptError,
    >)
        ensures
            match version {
                Some(v) => if self.view_registry().contains_key(name@)
                    && self.view_registry()[name@].contains_key(v@) {
                    render_matches(r, rendered(self.view_registry()[name@][v@], values_view(values@)))
                } else {
                    r matches Err(e) && e@ == PromptErrorView::NotFound(name@)
                },
                None => if self.view_registry().contains_key(name@) && self.view_registry()[name@].len()
                    > 0 {
                    exists|t: TemplateView|
                        is_latest(self.view_registry(), name@, t) && render_matches(
                            r,
                            #[trigger] rendered(t, values_view(values@)),
                        )
                } else {
                    r matches Err(e) && e@ == PromptErrorView::NotFound(name@)
                },
            },
    {
        match self.get(name, version) {
            Some(t) => {
                let r = t.render(values);
                proof {
                    assert(render_matches(r, rendered(t@, values_view(values@))));
                }
                r
            },
            None => {
                let e = PromptError::NotFound(owned(name));
                assert(e@ == PromptErrorView::NotFound(name@));
                Err(e)
            },
        }
    }

    /// Renders a latest version of `name` with `values`.
    pub fn render_latest(&self, name: &str, values: &StrMap<JsonValue>) -> (r: Result<
        String,
        PromptError,
    >)
        ensures
            if self.view_registry().contains_key(name@) && self.view_registry()[name@].len() > 0 {
                exists|t: TemplateView|
                    is_latest(self.view_registry(), name@, t) && render_matches(
                        r,
                        #[trigger] rendered(t, values_view(values@)),
                    )
            } else {
                r matches Err(e) && e@ == PromptErrorView::NotFound(name@)
            },
    {
        self.render(name, None, values)
    }

    /// The number of registered names.
    pub fn template_count(&self) -> (n: usize)
        ensures
            n == self.view_registry().len(),
    {
        let n = self.templates.len();
        assert(self.view_registry().dom() =~= self.templates@.dom());
        n
    }

    /// The number of registered (name, version) pairs.
    pub fn total_versions(&self) -> (n: usize)
        requires
            versions_total(self.view_registry(), self.name_order()) <= usize::MAX,
        ensures
            n == versions_total(self.view_registry(), self.name_order()),
    {
        let ghost ko = self.templates.key_order();
        let count = self.templates.len();
        let mut total: usize = 0;
        let mut i: usize = 0;
        proof {
            lemma_versions_total_monotone(self.view_registry(), ko);
        }
        while i < count
            invariant
                ko == self.templates.key_order(),
                count == ko.len(),
                forall|k: Seq<char>| ko.contains(k) <==> self.templates@.contains_key(k),
                forall|j: int| 0 <= j <= ko.len() ==> versions_total(self.view_registry(), #[trigger] ko.take(j))
                    <= versions_total(self.view_registry(), ko),
                versions_total(self.view_registry(), ko) <= usize::MAX,
                i <= count,
                total == versions_total(self.view_registry(), ko.take(i as int)),
            decreases count - i,
        {
            let m = self.templates.value_at(i);
            assert(ko.contains(ko[i as int]));
            assert(ko.take(i + 1).drop_last() =~= ko.take(i as int));
            assert(versions_of(*m).dom() =~= m@.dom());
            assert(versions_total(self.view_registry(), ko.take(i + 1)) == total + m@.len());
            total = total + m.len();
            i = i + 1;
        }
        assert(ko.take(count as int) =~= ko);
        total
    }

    /// Removes every version of `name`; true if the name was registered.
    pub fn remove(&mut self, name: &str) -> (b: bool)
        ensures
            b == old(self).view_registry().contains_key(name@),
            final(self).view_registry() == old(self).view_registry().remove(name@),
    {
        proof {
            use_type_invariant(&*self);
        }
        let mut templates = StrMap::new();
        std::mem::swap(&mut templates, &mut self.templates);
        let r = templates.remove(name);
        self.templates = templates;
        assert(self.view_registry() =~= old(self).view_registry().remove(name@));
        r.is_some()
    }

    /// Removes one version of `name`; the name stays registered even when
    /// no version is left. True if that version was registered.
    pub fn remove_version(&mut self, name: &str, version: &str) -> (b: bool)
        ensures
            b == (old(self).view_registry().contains_key(name@)
                && old(self).view_registry()[name@].contains_key(version@)),
            old(self).view_registry().contains_key(name@) ==> final(self).view_registry() == old(
                self,
            ).view_registry().insert(name@, old(self).view_registry()[name@].remove(version@)),
            !old(self).view_registry().contains_key(name@) ==> final(self).view_registry() == old(
                self,
            ).view_registry(),
    {
        proof {
            use_type_invariant(&*self);
        }
        let mut templates = StrMap::new();
        std::mem::swap(&mut templates, &mut self.templates);
        match templates.remove(name) {
            Some(m) => {
                let mut m = m;
                let ghost before = versions_of(m);
                let removed = m.remove(version);
                let key = owned(name);
                templates.insert(key, m);
                self.templates = templates;
                assert(versions_of(m) =~= before.remove(version@));
                assert(self.view_registry() =~= old(self).view_registry().insert(
                    name@,
                    before.remove(version@),
                ));
                removed.is_some()
            },
            None => {
                self.templates = templates;
                assert(self.view_registry() =~= old(self).view_registry());
                false
            },
        }
    }
}

/// A render result agrees with its specified outcome.
pub open spec fn render_matches(r: Result<String, PromptError>, expected: Result<Seq<char>, PromptErrorView>) -> bool {
    match expected {
        Ok(text) => r matches Ok(s) && s@ == text,
        Err(e) => r matches Err(err) && err@ == e,
    }
}

proof fn lemma_versions_total_monotone(r: RegistryView, ko: Seq<Seq<char>>)
    ensures
        forall|j: int| 0 <= j <= ko.len() ==> versions_total(r, #[trigger] ko.take(j)) <= versions_total(r, ko),
    decreases ko.len(),
{
    if ko.len() > 0 {
        lemma_versions_total_monotone(r, ko.drop_last());
        assert forall|j: int| 0 <= j <= ko.len() implies versions_total(r, #[trigger] ko.take(j))
            <= versions_total(r, ko) by {
            if j < ko.len() {
                assert(ko.take(j) =~= ko.drop_last().take(j));
            } else {
                assert(ko.take(j) =~= ko);
            }
        }
    }
}

/// What was registered is read back: after a successful registration the
/// registry holds `t` under its name and version, and every other entry is
/// unchanged.
pub proof fn law_register_then_get(r: RegistryView, t: TemplateView)
    requires
        register_outcome(r, t) is Ok,
    ensures
        ({
            let after = register_outcome(r, t)->Ok_0;
            &&& after.contains_key(t.name)
            &&& after[t.name].contains_key(t.version)
            &&& after[t.name][t.version] == t
            &&& forall|n: Seq<char>| n != t.name && #[trigger] r.contains_key(n) ==> after.contains_key(n) && after[n] == r[n]
            &&& forall|v: Seq<char>| v != t.version && r.contains_key(t.name) && #[trigger] r[t.name].contains_key(v) ==> after[t.name].contains_key(v) && after[t.name][v] == r[t.name][v]
        }),
{
}

/// Registering the same name and version a second time is refused with a
/// version conflict, and the first registration stays.
pub proof fn law_register_twice_conflicts(r: RegistryView, t: TemplateView)
    requires
        register_outcome(r, t) is Ok,
    ensures
        register_outcome(register_outcome(r, t)->Ok_0, t) is Err,
        register_outcome(register_outcome(r, t)->Ok_0, t)->Err_0 is VersionConflict,
{
}

/// A registration succeeds exactly when its name does not already hold its
/// version.
pub proof fn law_register_succeeds_iff_new(r: RegistryView, t: TemplateView)
    ensures
        register_outcome(r, t) is Ok <==> !(r.contains_key(t.name) && r[t.name].contains_key(t.version)),
{
}

impl Default for TemplateRegistry {
    fn default() -> (r: Self)
        ensures
            r.view_registry() == RegistryView::empty(),
    {
        TemplateRegistry::new()
    }
}

} // verus!
