//! The in-memory registry of installed plugins, unique by id and by name.
use vstd::prelude::*;
use crate::error::{AppError, AppResult, ErrorView, concat3, invalid_argument};
use crate::keyed::{Keyed, as_map, distinct_keys, find_key, has_key, index_of_key, lemma_index_of_key, lemma_push, lemma_remove, lemma_update};
use crate::models::{PluginRegistry, PluginType, PluginView};
use crate::text::{name_key_of, normalized_name_key, trim, trimmed};

verus! {

broadcast use vstd::std_specs::vec::group_vec_axioms;

/// The store as the contracts see it: the registries under their ids, in the
/// order they were stored, and the index from name keys to ids.
pub struct PluginStoreView {
    pub entries: Seq<(Seq<char>, PluginView)>,
    pub names: Map<Seq<char>, Seq<char>>,
}

impl PluginStoreView {
    /// The registries by id.
    pub open spec fn registries(self) -> Map<Seq<char>, PluginView> {
        as_map(self.entries)
    }

    /// The registries in the order they are listed.
    pub open spec fn listed(self) -> Seq<PluginView> {
        self.entries.map_values(|e: (Seq<char>, PluginView)| e.1)
    }

    pub open spec fn empty() -> PluginStoreView {
        PluginStoreView { entries: Seq::empty(), names: Map::empty() }
    }
}

pub open spec fn plugin_not_found(id: Seq<char>) -> ErrorView {
    ErrorView::NotFound("Plugin '"@ + id + "' não encontrado"@)
}

pub open spec fn plugin_name_required() -> ErrorView {
    ErrorView::InvalidArgument("Nome do plugin é obrigatório"@)
}

pub open spec fn plugin_name_taken(name: Seq<char>) -> ErrorView {
    ErrorView::InvalidArgument("Plugin com nome '"@ + trimmed(name) + "' já existe"@)
}

/// The registries of one kind, in order.
pub open spec fn plugins_of_type(ps: Seq<PluginView>, plugin_type: PluginType) -> Seq<PluginView> {
    ps.filter(|p: PluginView| p.plugin_type == plugin_type)
}

/// What inserting `reg` into `s` gives: the next store, or the error.
pub open spec fn spec_plugin_insert(s: PluginStoreView, reg: PluginView) -> Result<PluginStoreView, ErrorView> {
    let key = name_key_of(reg.name);
    if has_key(s.entries, reg.id) {
        Err(ErrorView::InvalidArgument("Plugin com ID "@ + reg.id + " já existe!"@))
    } else if key.len() == 0 {
        Err(plugin_name_required())
    } else if s.names.contains_key(key) {
        Err(plugin_name_taken(reg.name))
    } else {
        Ok(PluginStoreView { entries: s.entries.push((reg.id, reg)), names: s.names.insert(key, reg.id) })
    }
}

/// What inserting all of `regs`, in order, into an empty store gives.
pub open spec fn spec_plugin_sync(regs: Seq<PluginView>) -> Result<PluginStoreView, ErrorView>
    decreases regs.len(),
{
    if regs.len() == 0 {
        Ok(PluginStoreView::empty())
    } else {
        match spec_plugin_sync(regs.drop_last()) {
            Ok(s) => spec_plugin_insert(s, regs.last()),
            Err(e) => Err(e),
        }
    }
}

/// What replacing the registry under `id` by `reg` gives.
pub open spec fn spec_plugin_replace(s: PluginStoreView, id: Seq<char>, reg: PluginView) -> Result<PluginStoreView, ErrorView> {
    let next_key = name_key_of(reg.name);
    if !has_key(s.entries, id) {
        Err(plugin_not_found(id))
    } else if next_key.len() == 0 {
        Err(plugin_name_required())
    } else if s.names.contains_key(next_key) && s.names[next_key] != id {
        Err(plugin_name_taken(reg.name))
    } else {
        let i = index_of_key(s.entries, id);
        let prev_key = name_key_of(s.entries[i].1.name);
        Ok(PluginStoreView {
            entries: s.entries.update(i, (id, reg)),
            names: s.names.remove(prev_key).insert(next_key, reg.id),
        })
    }
}

/// What removing the registry under `id` gives: the next store and the removed registry.
pub open spec fn spec_plugin_remove(s: PluginStoreView, id: Seq<char>) -> Result<(PluginStoreView, PluginView), ErrorView> {
    if !has_key(s.entries, id) {
        Err(plugin_not_found(id))
    } else {
        let i = index_of_key(s.entries, id);
        let reg = s.entries[i].1;
        Ok((PluginStoreView { entries: s.entries.remove(i), names: s.names.remove(name_key_of(reg.name)) }, reg))
    }
}

/// Whether the name index of a store is exactly the names of its registries,
/// each stored under its own id.
pub open spec fn plugin_store_consistent(s: PluginStoreView) -> bool {
    &&& forall|i: int| 0 <= i < s.entries.len() ==> (#[trigger] s.entries[i]).0 == s.entries[i].1.id
    &&& forall|i: int| #![trigger s.entries[i]] 0 <= i < s.entries.len()
        ==> s.names.contains_key(name_key_of(s.entries[i].1.name)) && s.names[name_key_of(s.entries[i].1.name)] == s.entries[i].0
    &&& forall|k: Seq<char>| #[trigger] s.names.contains_key(k) ==> has_key(s.entries, s.names[k])
        && name_key_of(s.registries()[s.names[k]].name) == k
}

proof fn lemma_sync_error_persists(regs: Seq<PluginView>, i: int)
    requires
        0 <= i <= regs.len(),
        spec_plugin_sync(regs.take(i)) is Err,
    ensures
        spec_plugin_sync(regs) == spec_plugin_sync(regs.take(i)),
    decreases regs.len() - i,
{
    if i < regs.len() {
        assert(regs.take(i + 1).drop_last() =~= regs.take(i));
        lemma_sync_error_persists(regs, i + 1);
    } else {
        assert(regs.take(i) =~= regs);
    }
}

pub struct PluginStore {
    registries: Vec<Keyed<PluginRegistry>>,
    names: Vec<Keyed<String>>,
}

impl View for PluginStore {
    type V = PluginStoreView;

    closed spec fn view(&self) -> PluginStoreView {
        PluginStoreView { entries: self.registries.deep_view(), names: as_map(self.names.deep_view()) }
    }
}

impl PluginStore {
    /// The entries and the name index each hold every key at most once.
    pub closed spec fn wf(&self) -> bool {
        &&& distinct_keys(self.registries.deep_view())
        &&& distinct_keys(self.names.deep_view())
    }

    pub fn new() -> (r: PluginStore)
        ensures
            r@ == PluginStoreView::empty(),
            r.wf(),
    {
        let r = PluginStore { registries: Vec::new(), names: Vec::new() };
        assert(r@.entries =~= Seq::empty());
        assert(as_map(r.names.deep_view()) =~= Map::empty());
        r
    }

    /// Stores a new registry under its id.
    pub fn insert(&mut self, registry: PluginRegistry) -> (r: AppResult<()>)
        requires
            old(self).wf(),
        ensures
            final(self).wf(),
            match spec_plugin_insert(old(self)@, registry@) {
                Ok(next) => r is Ok && final(self)@ == next,
                Err(e) => r matches Err(x) && x@ == e && final(self)@ == old(self)@,
            },
    {
        if find_key(&self.registries, &registry.id).is_some() {
            return Err(AppError::InvalidArgument(concat3("Plugin com ID ", registry.id.as_str(), " já existe!")));
        }
        let key = normalized_name_key(registry.name.as_str());
        if key.as_str().is_empty() {
            return Err(invalid_argument("Nome do plugin é obrigatório"));
        }
        if find_key(&self.names, &key).is_some() {
            let shown = trim(registry.name.as_str());
            return Err(AppError::InvalidArgument(concat3("Plugin com nome '", shown.as_str(), "' já existe")));
        }
        let ghost old_reg = self.registries.deep_view();
        let ghost old_names = self.names.deep_view();
        let id = registry.id.clone();
        proof {
            lemma_push(old_names, key@, id@);
            lemma_push(old_reg, id@, registry@);
        }
        self.names.push(Keyed { key, value: id.clone() });
        self.registries.push(Keyed { key: id, value: registry });
        assert(self.names.deep_view() =~= old_names.push((key@, id@)));
        assert(self.registries.deep_view() =~= old_reg.push((id@, registry@)));
        Ok(())
    }

    /// The registry stored under `id`.
    pub fn get(&self, id: &str) -> (r: AppResult<PluginRegistry>)
        requires
            self.wf(),
        ensures
            has_key(self@.entries, id@) ==> (r matches Ok(p) && p@ == self@.registries()[id@]),
            !has_key(self@.entries, id@) ==> (r matches Err(e) && e@ == plugin_not_found(id@)),
    {
        let key = String::from_str(id);
        match find_key(&self.registries, &key) {
            Some(i) => {
                proof { lemma_index_of_key(self.registries.deep_view(), i as int); }
                Ok(self.registries[i].value.clone())
            },
            None => Err(AppError::NotFound(concat3("Plugin '", id, "' não encontrado"))),
        }
    }

    /// All registries, in the order they were stored.
    pub fn list(&self) -> (r: Vec<PluginRegistry>)
        ensures
            r.deep_view() == self@.listed(),
    {
        let mut out: Vec<PluginRegistry> = Vec::new();
        let mut i: usize = 0;
        while i < self.registries.len()
            invariant
                i <= self.registries.len(),
                out.len() == i,
                forall|k: int| 0 <= k < i ==> (#[trigger] out@[k])@ == self.registries@[k].value@,
            decreases self.registries.len() - i,
        {
            out.push(self.registries[i].value.clone());
            i += 1;
        }
        assert(out.deep_view() =~= self@.listed());
        out
    }

    /// The registries of the given kind, in the order they were stored.
    pub fn list_by_type(&self, plugin_type: PluginType) -> (r: Vec<PluginRegistry>)
        ensures
            r.deep_view() == plugins_of_type(self@.listed(), plugin_type),
    {
        let ghost pred = |p: PluginView| p.plugin_type == plugin_type;
        let mut out: Vec<PluginRegistry> = Vec::new();
        let mut i: usize = 0;
        while i < self.registries.len()
            invariant
                i <= self.registries.len(),
                out.deep_view() == self@.listed().take(i as int).filter(pred),
                pred == (|p: PluginView| p.plugin_type == plugin_type),
            decreases self.registries.len() - i,
        {
            let ghost before = out.deep_view();
            let ghost t = self@.listed().take(i + 1);
            proof {
                reveal_with_fuel(Seq::filter, 1);
                assert(t.drop_last() =~= self@.listed().take(i as int));
                assert(t.last() == self.registries@[i as int].value@);
                assert(t.filter(pred) == if pred(t.last()) { t.drop_last().filter(pred).push(t.last()) } else { t.drop_last().filter(pred) });
            }
            if self.registries[i].value.plugin_type == plugin_type {
                out.push(self.registries[i].value.clone());
                assert(out.deep_view() =~= before.push(t.last()));
            } else {
                assert(!pred(t.last()));
            }
        i += 1;
        }
        assert(self@.listed().take(self.registries.len() as int) =~= self@.listed());
        out
    }

    /// Whether some stored registry has the same name key as `name` (a blank name never does).
    pub fn exists_by_name(&self, name: &str) -> (r: bool)
        requires
            self.wf(),
        ensures
            r == (name_key_of(name@).len() > 0 && self@.names.contains_key(name_key_of(name@))),
    {
        let key = normalized_name_key(name);
        if key.as_str().is_empty() {
            return false;
        }
        match find_key(&self.names, &key) {
            Some(i) => {
                proof { lemma_index_of_key(self.names.deep_view(), i as int); }
                true
            },
            None => false,
        }
    }

    /// Whether a registry other than `id` holds the name key of `name`.
    pub fn exists_by_name_except(&self, id: &str, name: &str) -> (r: bool)
        requires
            self.wf(),
        ensures
            r == (name_key_of(name@).len() > 0 && self@.names.contains_key(name_key_of(name@))
                && self@.names[name_key_of(name@)] != id@),
    {
        let key = normalized_name_key(name);
        if key.as_str().is_empty() {
            return false;
        }
        match find_key(&self.names, &key) {
            Some(i) => {
                proof { lemma_index_of_key(self.names.deep_view(), i as int); }
                let other = String::from_str(id);
                !(self.names[i].value == other)
            },
            None => false,
        }
    }

    /// Replaces the registry stored under `id`, keeping names unique.
    pub fn replace(&mut self, id: &str, registry: PluginRegistry) -> (r: AppResult<()>)
        requires
            old(self).wf(),
        ensures
            final(self).wf(),
            match spec_plugin_replace(old(self)@, id@, registry@) {
                Ok(next) => r is Ok && final(self)@ == next,
                Err(e) => r matches Err(x) && x@ == e && final(self)@ == old(self)@,
            },
    {
        let id_key = String::from_str(id);
        let i = match find_key(&self.registries, &id_key) {
            Some(i) => i,
            None => return Err(AppError::NotFound(concat3("Plugin '", id, "' não encontrado"))),
        };
        proof { lemma_index_of_key(self.registries.deep_view(), i as int); }
        let previous_key = normalized_name_key(self.registries[i].value.name.as_str());
        let next_key = normalized_name_key(registry.name.as_str());
        if next_key.as_str().is_empty() {
            return Err(invalid_argument("Nome do plugin é obrigatório"));
        }
        match find_key(&self.names, &next_key) {
            Some(j) => {
                proof { lemma_index_of_key(self.names.deep_view(), j as int); }
                if !(self.names[j].value == id_key) {
                    let shown = trim(registry.name.as_str());
                    return Err(AppError::InvalidArgument(concat3("Plugin com nome '", shown.as_str(), "' já existe")));
                }
            },
            None => {},
        }
        let ghost names0 = self.names.deep_view();
        match find_key(&self.names, &previous_key) {
            Some(j) => {
                proof { lemma_remove(names0, j as int); }
                self.names.remove(j);
                assert(self.names.deep_view() =~= names0.remove(j as int));
            },
            None => {
                assert(as_map(names0).remove(previous_key@) =~= as_map(names0));
            },
        }
        let ghost names1 = self.names.deep_view();
        assert(as_map(names1) == as_map(names0).remove(previous_key@));
        let new_id = registry.id.clone();
        match find_key(&self.names, &next_key) {
            Some(j) => {
                proof { lemma_update(names1, j as int, new_id@); }
                self.names.set(j, Keyed { key: next_key, value: new_id });
                assert(self.names.deep_view() =~= names1.update(j as int, (names1[j as int].0, new_id@)));
            },
            None => {
                proof { lemma_push(names1, next_key@, new_id@); }
                self.names.push(Keyed { key: next_key, value: new_id });
                assert(self.names.deep_view() =~= names1.push((next_key@, new_id@)));
            },
        }
        let ghost regs0 = self.registries.deep_view();
        proof { lemma_update(regs0, i as int, registry@); }
        self.registries.set(i, Keyed { key: id_key, value: registry });
        assert(self.registries.deep_view() =~= regs0.update(i as int, (regs0[i as int].0, regs0.update(i as int, (id@, self.registries@[i as int].value@))[i as int].1)));
        Ok(())
    }

    /// Removes and returns the registry stored under `id`.
    pub fn remove(&mut self, id: &str) -> (r: AppResult<PluginRegistry>)
        requires
            old(self).wf(),
        ensures
            final(self).wf(),
            match spec_plugin_remove(old(self)@, id@) {
                Ok((next, reg)) => r matches Ok(p) && p@ == reg && final(self)@ == next,
                Err(e) => r matches Err(x) && x@ == e && final(self)@ == old(self)@,
            },
    {
        let id_key = String::from_str(id);
        let i = match find_key(&self.registries, &id_key) {
            Some(i) => i,
            None => return Err(AppError::NotFound(concat3("Plugin '", id, "' não encontrado"))),
        };
        let ghost regs0 = self.registries.deep_view();
        proof {
            lemma_index_of_key(regs0, i as int);
            lemma_remove(regs0, i as int);
        }
        let entry = self.registries.remove(i);
        assert(self.registries.deep_view() =~= regs0.remove(i as int));
        let key = normalized_name_key(entry.value.name.as_str());
        let ghost names0 = self.names.deep_view();
        match find_key(&self.names, &key) {
            Some(j) => {
                proof { lemma_remove(names0, j as int); }
                self.names.remove(j);
                assert(self.names.deep_view() =~= names0.remove(j as int));
            },
            None => {
                assert(as_map(names0).remove(key@) =~= as_map(names0));
            },
        }
        Ok(entry.value)
    }

    /// Replaces the whole store by the given registries, inserted in order; on the
    /// first refused insertion nothing changes and that error is returned.
    pub fn sync(&mut self, registries: Vec<PluginRegistry>) -> (r: AppResult<Vec<PluginRegistry>>)
        requires
            old(self).wf(),
        ensures
            final(self).wf(),
            match spec_plugin_sync(registries.deep_view()) {
                Ok(next) => r matches Ok(v) && v.deep_view() == next.listed() && final(self)@ == next,
                Err(e) => r matches Err(x) && x@ == e && final(self)@ == old(self)@,
            },
    {
        let ghost regs = registries.deep_view();
        let mut next = PluginStore::new();
        let mut i: usize = 0;
        assert(regs.take(0) =~= Seq::<PluginView>::empty());
        while i < registries.len()
            invariant
                i <= registries.len(),
                regs == registries.deep_view(),
                next.wf(),
                self.wf(),
                self@ == old(self)@,
                spec_plugin_sync(regs.take(i as int)) == Ok::<PluginStoreView, ErrorView>(next@),
            decreases registries.len() - i,
        {
            assert(regs.take(i + 1).drop_last() =~= regs.take(i as int));
            let item = registries[i].clone();
            match next.insert(item) {
                Ok(()) => {},
                Err(e) => {
                    proof { lemma_sync_error_persists(regs, i + 1); }
                    return Err(e);
                },
            }
            i += 1;
        }
        assert(regs.take(registries.len() as int) =~= regs);
        let items = next.list();
        *self = next;
        Ok(items)
    }

    /// The first stored registry of the given kind whose name has the same key as `name`.
    pub fn find_by_type_and_name(&self, plugin_type: PluginType, name: &str) -> (r: Option<PluginRegistry>)
        ensures
            match r {
                Some(p) => exists|i: int| 0 <= i < self@.entries.len()
                    && (#[trigger] self@.entries[i]).1 == p@
                    && p@.plugin_type == plugin_type
                    && name_key_of(p@.name) == name_key_of(name@)
                    && forall|j: int| 0 <= j < i ==> !(self@.entries[j].1.plugin_type == plugin_type
                        && name_key_of(self@.entries[j].1.name) == name_key_of(name@)),
                None => forall|j: int| 0 <= j < self@.entries.len() ==> !((#[trigger] self@.entries[j]).1.plugin_type == plugin_type
                    && name_key_of(self@.entries[j].1.name) == name_key_of(name@)),
            },
    {
        let key = normalized_name_key(name);
        let mut i: usize = 0;
        while i < self.registries.len()
            invariant
                i <= self.registries.len(),
                key@ == name_key_of(name@),
                forall|j: int| 0 <= j < i ==> !((#[trigger] self@.entries[j]).1.plugin_type == plugin_type
                    && name_key_of(self@.entries[j].1.name) == name_key_of(name@)),
            decreases self.registries.len() - i,
        {
            if self.registries[i].value.plugin_type == plugin_type {
                let other = normalized_name_key(self.registries[i].value.name.as_str());
                if other == key {
                    let p = self.registries[i].value.clone();
                    assert(self@.entries[i as int].1 == p@);
                    return Some(p);
                }
            }
            i += 1;
        }
        None
    }
}

} // verus!
