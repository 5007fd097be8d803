//! The in-memory set of loaded plants, unique by id and by name.
use vstd::prelude::*;
use crate::error::{AppError, AppResult, ErrorView, concat3, invalid_argument};
use crate::keyed::{Keyed, as_map, distinct_keys, find_key, has_key, index_of_key, lemma_index_of_key, lemma_push, lemma_remove, lemma_update};
use crate::models::{Plant, PlantView};
use crate::text::{name_key_of, normalized_name_key, trim, trimmed};

verus! {

broadcast use vstd::std_specs::vec::group_vec_axioms;

/// The store as the contracts see it: the plants under their ids, in the
/// order they were stored, and the index from name keys to ids.
pub struct PlantStoreView {
    pub entries: Seq<(Seq<char>, PlantView)>,
    pub names: Map<Seq<char>, Seq<char>>,
}

impl PlantStoreView {
    /// The plants by id.
    pub open spec fn plants(self) -> Map<Seq<char>, PlantView> {
        as_map(self.entries)
    }

    /// The plants in the order they are listed.
    pub open spec fn listed(self) -> Seq<PlantView> {
        self.entries.map_values(|e: (Seq<char>, PlantView)| e.1)
    }

    pub open spec fn empty() -> PlantStoreView {
        PlantStoreView { entries: Seq::empty(), names: Map::empty() }
    }
}

pub open spec fn plant_not_found(id: Seq<char>) -> ErrorView {
    ErrorView::NotFound("Planta '"@ + id + "' não encontrada"@)
}

pub open spec fn plant_name_required() -> ErrorView {
    ErrorView::InvalidArgument("Nome da planta é obrigatório"@)
}

pub open spec fn plant_name_taken(name: Seq<char>) -> ErrorView {
    ErrorView::InvalidArgument("Planta com NOME '"@ + trimmed(name) + "' já existe"@)
}

/// What inserting `reg` into `s` gives: the next store, or the error.
pub open spec fn spec_plant_insert(s: PlantStoreView, reg: PlantView) -> Result<PlantStoreView, ErrorView> {
    let key = name_key_of(reg.name);
    if has_key(s.entries, reg.id) {
        Err(ErrorView::InvalidArgument("Planta com ID '"@ + reg.id + "' já existe"@))
    } else if key.len() == 0 {
        Err(plant_name_required())
    } else if s.names.contains_key(key) {
        Err(plant_name_taken(reg.name))
    } else {
        Ok(PlantStoreView { entries: s.entries.push((reg.id, reg)), names: s.names.insert(key, reg.id) })
    }
}

/// What storing `next` under `id`, in place of the plant found there, gives: the
/// plant is replaced even when its new name collides with another plant's, and
/// only then is the collision reported, the name index left as it was.
pub open spec fn spec_plant_update(s: PlantStoreView, id: Seq<char>, next: PlantView) -> (PlantStoreView, Result<PlantView, ErrorView>) {
    let i = index_of_key(s.entries, id);
    let prev_key = name_key_of(s.entries[i].1.name);
    let next_key = name_key_of(next.name);
    let entries = s.entries.update(i, (id, next));
    if prev_key != next_key {
        if s.names.contains_key(next_key) && s.names[next_key] != id {
            (PlantStoreView { entries, names: s.names }, Err(plant_name_taken(next.name)))
        } else {
            (PlantStoreView { entries, names: s.names.remove(prev_key).insert(next_key, next.id) }, Ok(next))
        }
    } else {
        (PlantStoreView { entries, names: s.names }, Ok(next))
    }
}

/// What replacing the plant under `id` by `reg` gives.
pub open spec fn spec_plant_replace(s: PlantStoreView, id: Seq<char>, reg: PlantView) -> Result<PlantStoreView, ErrorView> {
    let next_key = name_key_of(reg.name);
    if !has_key(s.entries, id) {
        Err(plant_not_found(id))
    } else if next_key.len() == 0 {
        Err(plant_name_required())
    } else if s.names.contains_key(next_key) && s.names[next_key] != id {
        Err(plant_name_taken(reg.name))
    } else {
        let i = index_of_key(s.entries, id);
        let prev_key = name_key_of(s.entries[i].1.name);
        Ok(PlantStoreView {
            entries: s.entries.update(i, (id, reg)),
            names: s.names.remove(prev_key).insert(next_key, reg.id),
        })
    }
}

/// What removing the plant under `id` gives: the next store and the removed plant.
pub open spec fn spec_plant_remove(s: PlantStoreView, id: Seq<char>) -> Result<(PlantStoreView, PlantView), ErrorView> {
    if !has_key(s.entries, id) {
        Err(plant_not_found(id))
    } else {
        let i = index_of_key(s.entries, id);
        let reg = s.entries[i].1;
        Ok((PlantStoreView { entries: s.entries.remove(i), names: s.names.remove(name_key_of(reg.name)) }, reg))
    }
}

/// Whether the name index of a store is exactly the names of its plants,
/// each stored under its own id.
pub open spec fn plant_store_consistent(s: PlantStoreView) -> bool {
    &&& forall|i: int| 0 <= i < s.entries.len() ==> (#[trigger] s.entries[i]).0 == s.entries[i].1.id
    &&& forall|i: int| #![trigger s.entries[i]] 0 <= i < s.entries.len()
        ==> s.names.contains_key(name_key_of(s.entries[i].1.name)) && s.names[name_key_of(s.entries[i].1.name)] == s.entries[i].0
    &&& forall|k: Seq<char>| #[trigger] s.names.contains_key(k) ==> has_key(s.entries, s.names[k])
        && name_key_of(s.plants()[s.names[k]].name) == k
}

pub struct PlantStore {
    plants: Vec<Keyed<Plant>>,
    names: Vec<Keyed<String>>,
}

impl View for PlantStore {
    type V = PlantStoreView;

    closed spec fn view(&self) -> PlantStoreView {
        PlantStoreView { entries: self.plants.deep_view(), names: as_map(self.names.deep_view()) }
    }
}

impl PlantStore {
    /// The entries and the name index each hold every key at most once.
    pub closed spec fn wf(&self) -> bool {
        &&& distinct_keys(self.plants.deep_view())
        &&& distinct_keys(self.names.deep_view())
    }

    pub fn new() -> (r: PlantStore)
        ensures
            r@ == PlantStoreView::empty(),
            r.wf(),
    {
        let r = PlantStore { plants: Vec::new(), names: Vec::new() };
        assert(r@.entries =~= Seq::empty());
        assert(as_map(r.names.deep_view()) =~= Map::empty());
        r
    }

    /// Stores a new plant under its id.
    pub fn insert(&mut self, plant: Plant) -> (r: AppResult<()>)
        requires
            old(self).wf(),
        ensures
            final(self).wf(),
            match spec_plant_insert(old(self)@, plant@) {
                Ok(next) => r is Ok && final(self)@ == next,
                Err(e) => r matches Err(x) && x@ == e && final(self)@ == old(self)@,
            },
    {
        if find_key(&self.plants, &plant.id).is_some() {
            return Err(AppError::InvalidArgument(concat3("Planta com ID '", plant.id.as_str(), "' já existe")));
        }
        let key = normalized_name_key(plant.name.as_str());
        if key.as_str().is_empty() {
            return Err(invalid_argument("Nome da planta é obrigatório"));
        }
        if find_key(&self.names, &key).is_some() {
            let shown = trim(plant.name.as_str());
            return Err(AppError::InvalidArgument(concat3("Planta com NOME '", shown.as_str(), "' já existe")));
        }
        let ghost old_reg = self.plants.deep_view();
        let ghost old_names = self.names.deep_view();
        let id = plant.id.clone();
        proof {
            lemma_push(old_names, key@, id@);
            lemma_push(old_reg, id@, plant@);
        }
        self.names.push(Keyed { key, value: id.clone() });
        self.plants.push(Keyed { key: id, value: plant });
        assert(self.names.deep_view() =~= old_names.push((key@, id@)));
        assert(self.plants.deep_view() =~= old_reg.push((id@, plant@)));
        Ok(())
    }

    /// The plant stored under `id`.
    pub fn get(&self, id: &str) -> (r: AppResult<Plant>)
        requires
            self.wf(),
        ensures
            has_key(self@.entries, id@) ==> (r matches Ok(p) && p@ == self@.plants()[id@]),
            !has_key(self@.entries, id@) ==> (r matches Err(e) && e@ == plant_not_found(id@)),
    {
        let key = String::from_str(id);
        match find_key(&self.plants, &key) {
            Some(i) => {
                proof { lemma_index_of_key(self.plants.deep_view(), i as int); }
                Ok(self.plants[i].value.clone())
            },
            None => Err(AppError::NotFound(concat3("Planta '", id, "' não encontrada"))),
        }
    }

    /// All plants, in the order they were stored.
    pub fn list(&self) -> (r: Vec<Plant>)
        ensures
            r.deep_view() == self@.listed(),
    {
        let mut out: Vec<Plant> = Vec::new();
        let mut i: usize = 0;
        while i < self.plants.len()
            invariant
                i <= self.plants.len(),
                out.len() == i,
                forall|k: int| 0 <= k < i ==> (#[trigger] out@[k])@ == self.plants@[k].value@,
            decreases self.plants.len() - i,
        {
            out.push(self.plants[i].value.clone());
            i += 1;
        }
        assert(out.deep_view() =~= self@.listed());
        out
    }

    /// Whether some stored plant has the same name key as `name` (a blank name never does).
    pub fn exists_by_name(&self, name: &str) -> (r: bool)
        requires
            self.wf(),
        ensures
            r == (name_key_of(name@).len() > 0 && self@.names.contains_key(name_key_of(name@))),
    {
        let key = normalized_name_key(name);
        if key.as_str().is_empty() {
            return false;
        }
        match find_key(&self.names, &key) {
            Some(i) => {
                proof { lemma_index_of_key(self.names.deep_view(), i as int); }
                true
            },
            None => false,
        }
    }

    /// Whether a plant other than `id` holds the name key of `name`.
    pub fn exists_by_name_except(&self, id: &str, name: &str) -> (r: bool)
        requires
            self.wf(),
        ensures
            r == (name_key_of(name@).len() > 0 && self@.names.contains_key(name_key_of(name@))
                && self@.names[name_key_of(name@)] != id@),
    {
        let key = normalized_name_key(name);
        if key.as_str().is_empty() {
            return false;
        }
        match find_key(&self.names, &key) {
            Some(i) => {
                proof { lemma_index_of_key(self.names.deep_view(), i as int); }
                let other = String::from_str(id);
                !(self.names[i].value == other)
            },
            None => false,
        }
    }

    /// Replaces the plant stored under `id`, keeping names unique.
    pub fn replace(&mut self, id: &str, plant: Plant) -> (r: AppResult<()>)
        requires
            old(self).wf(),
        ensures
            final(self).wf(),
            match spec_plant_replace(old(self)@, id@, plant@) {
                Ok(next) => r is Ok && final(self)@ == next,
                Err(e) => r matches Err(x) && x@ == e && final(self)@ == old(self)@,
            },
    {
        let id_key = String::from_str(id);
        let i = match find_key(&self.plants, &id_key) {
            Some(i) => i,
            None => return Err(AppError::NotFound(concat3("Planta '", id, "' não encontrada"))),
        };
        proof { lemma_index_of_key(self.plants.deep_view(), i as int); }
        let previous_key = normalized_name_key(self.plants[i].value.name.as_str());
        let next_key = normalized_name_key(plant.name.as_str());
        if next_key.as_str().is_empty() {
            return Err(invalid_argument("Nome da planta é obrigatório"));
        }
        match find_key(&self.names, &next_key) {
            Some(j) => {
                proof { lemma_index_of_key(self.names.deep_view(), j as int); }
                if !(self.names[j].value == id_key) {
                    let shown = trim(plant.name.as_str());
                    return Err(AppError::InvalidArgument(concat3("Planta com NOME '", shown.as_str(), "' já existe")));
                }
            },
            None => {},
        }
        let ghost names0 = self.names.deep_view();
        match find_key(&self.names, &previous_key) {
            Some(j) => {
                proof { lemma_remove(names0, j as int); }
                self.names.remove(j);
                assert(self.names.deep_view() =~= names0.remove(j as int));
            },
            None => {
                assert(as_map(names0).remove(previous_key@) =~= as_map(names0));
            },
        }
        let ghost names1 = self.names.deep_view();
        assert(as_map(names1) == as_map(names0).remove(previous_key@));
        let new_id = plant.id.clone();
        match find_key(&self.names, &next_key) {
            Some(j) => {
                proof { lemma_update(names1, j as int, new_id@); }
                self.names.set(j, Keyed { key: next_key, value: new_id });
                assert(self.names.deep_view() =~= names1.update(j as int, (names1[j as int].0, new_id@)));
            },
            None => {
                proof { lemma_push(names1, next_key@, new_id@); }
                self.names.push(Keyed { key: next_key, value: new_id });
                assert(self.names.deep_view() =~= names1.push((next_key@, new_id@)));
            },
        }
        let ghost regs0 = self.plants.deep_view();
        proof { lemma_update(regs0, i as int, plant@); }
        self.plants.set(i, Keyed { key: id_key, value: plant });
        assert(self.plants.deep_view() =~= regs0.update(i as int, (regs0[i as int].0, regs0.update(i as int, (id@, self.plants@[i as int].value@))[i as int].1)));
        Ok(())
    }

    /// Removes and returns the plant stored under `id`.
    pub fn remove(&mut self, id: &str) -> (r: AppResult<Plant>)
        requires
            old(self).wf(),
        ensures
            final(self).wf(),
            match spec_plant_remove(old(self)@, id@) {
                Ok((next, reg)) => r matches Ok(p) && p@ == reg && final(self)@ == next,
                Err(e) => r matches Err(x) && x@ == e && final(self)@ == old(self)@,
            },
    {
        let id_key = String::from_str(id);
        let i = match find_key(&self.plants, &id_key) {
            Some(i) => i,
            None => return Err(AppError::NotFound(concat3("Planta '", id, "' não encontrada"))),
        };
        let ghost regs0 = self.plants.deep_view();
        proof {
            lemma_index_of_key(regs0, i as int);
            lemma_remove(regs0, i as int);
        }
        let entry = self.plants.remove(i);
        assert(self.plants.deep_view() =~= regs0.remove(i as int));
        let key = normalized_name_key(entry.value.name.as_str());
        let ghost names0 = self.names.deep_view();
        match find_key(&self.names, &key) {
            Some(j) => {
                proof { lemma_remove(names0, j as int); }
                self.names.remove(j);
                assert(self.names.deep_view() =~= names0.remove(j as int));
            },
            None => {
                assert(as_map(names0).remove(key@) =~= as_map(names0));
            },
        }
        Ok(entry.value)
    }


    /// Applies `updater` to the plant stored under `id` and returns the updated plant.
    pub fn update<F: FnOnce(Plant) -> Plant>(&mut self, id: &str, updater: F) -> (r: AppResult<Plant>)
        requires
            old(self).wf(),
            forall|p: Plant| #[trigger] call_requires(updater, (p,)),
        ensures
            final(self).wf(),
            !has_key(old(self)@.entries, id@) ==> (r matches Err(e) && e@ == plant_not_found(id@)
                && final(self)@ == old(self)@),
            has_key(old(self)@.entries, id@) ==> exists|p: Plant, q: Plant|
                p@ == old(self)@.plants()[id@] && #[trigger] call_ensures(updater, (p,), q) && ({
                    let (next, out) = spec_plant_update(old(self)@, id@, q@);
                    &&& final(self)@ == next
                    &&& match out {
                        Ok(v) => r matches Ok(x) && x@ == v,
                        Err(e) => r matches Err(x) && x@ == e,
                    }
                }),
    {
        let id_key = String::from_str(id);
        let i = match find_key(&self.plants, &id_key) {
            Some(i) => i,
            None => return Err(AppError::NotFound(concat3("Planta '", id, "' não encontrada"))),
        };
        let ghost plants0 = self.plants.deep_view();
        let ghost names0 = self.names.deep_view();
        proof { lemma_index_of_key(plants0, i as int); }
        let current = self.plants[i].value.clone();
        let previous_key = normalized_name_key(current.name.as_str());
        let ghost p = current;
        let updated = updater(current);
        let ghost q = updated;
        let next_key = normalized_name_key(updated.name.as_str());
        let snapshot = updated.clone();
        let plant_id = updated.id.clone();
        proof { lemma_update(plants0, i as int, updated@); }
        self.plants.set(i, Keyed { key: id_key, value: updated });
        assert(self.plants.deep_view() =~= plants0.update(i as int, (id@, q@)));
        if !(previous_key == next_key) {
            match find_key(&self.names, &next_key) {
                Some(j) => {
                    proof { lemma_index_of_key(names0, j as int); }
                    let other = String::from_str(id);
                    if !(self.names[j].value == other) {
                        let shown = trim(snapshot.name.as_str());
                        return Err(AppError::InvalidArgument(concat3("Planta com NOME '", shown.as_str(), "' já existe")));
                    }
                },
                None => {},
            }
            match find_key(&self.names, &previous_key) {
                Some(j) => {
                    proof { lemma_remove(names0, j as int); }
                    self.names.remove(j);
                    assert(self.names.deep_view() =~= names0.remove(j as int));
                },
                None => {
                    assert(as_map(names0).remove(previous_key@) =~= as_map(names0));
                },
            }
            let ghost names1 = self.names.deep_view();
            match find_key(&self.names, &next_key) {
                Some(j) => {
                    proof { lemma_update(names1, j as int, plant_id@); }
                    self.names.set(j, Keyed { key: next_key, value: plant_id });
                    assert(self.names.deep_view() =~= names1.update(j as int, (names1[j as int].0, plant_id@)));
                },
                None => {
                    proof { lemma_push(names1, next_key@, plant_id@); }
                    self.names.push(Keyed { key: next_key, value: plant_id });
                    assert(self.names.deep_view() =~= names1.push((next_key@, plant_id@)));
                },
            }
        }
        Ok(snapshot)
    }

    /// Whether a plant is stored under `id`.
    pub fn contains(&self, id: &str) -> (r: bool)
        ensures
            r == has_key(self@.entries, id@),
    {
        let key = String::from_str(id);
        find_key(&self.plants, &key).is_some()
    }

    /// The number of stored plants.
    pub fn count(&self) -> (r: usize)
        ensures
            r == self@.entries.len(),
    {
        self.plants.len()
    }
}

} // verus!
