//! The registry of named indexes.
use vstd::prelude::*;
use crate::error::{join3, EnzinError, ErrorView};

verus! {

/// An index and the name it is registered under.
pub struct IndexEntry {
    name: String,
    index: tantivy::Index,
}

/// The registry of the engine's indexes, by name, and the directory under
/// which their files live.
pub struct IndexManager {
    entries: Vec<IndexEntry>,
    data_dir: String,
}

/// The registry as the contracts see it: names with their indexes, in the
/// order they were registered.
pub type Registry = Seq<(Seq<char>, tantivy::Index)>;

/// The names in a registry, in order.
pub open spec fn registry_names(reg: Registry) -> Seq<Seq<char>> {
    reg.map_values(|e: (Seq<char>, tantivy::Index)| e.0)
}

/// Where `name` stands in a registry, if it is there.
pub open spec fn registry_position(reg: Registry, name: Seq<char>) -> Option<int> {
    if registry_names(reg).contains(name) {
        Some(registry_names(reg).index_of(name))
    } else {
        None
    }
}

pub open spec fn already_exists_message(name: Seq<char>) -> Seq<char> {
    "index '"@ + name + "' already exists"@
}

pub open spec fn not_found_message(name: Seq<char>) -> Seq<char> {
    "index '"@ + name + "' not found"@
}

/// Whether a new index may be created under `name`: not if the name is taken.
pub open spec fn create_check(reg: Registry, name: Seq<char>) -> Result<(), ErrorView> {
    if registry_names(reg).contains(name) {
        Err(ErrorView::InvalidDocument(already_exists_message(name)))
    } else {
        Ok(())
    }
}

/// The registry after creating `index` under `name`, and the answer.
pub open spec fn create_spec(reg: Registry, name: Seq<char>, index: tantivy::Index) -> (Registry, Result<(), ErrorView>) {
    match create_check(reg, name) {
        Ok(()) => (reg.push((name, index)), Ok(())),
        Err(e) => (reg, Err(e)),
    }
}

/// The registry after deleting the index `name`, and the answer.
pub open spec fn delete_spec(reg: Registry, name: Seq<char>) -> (Registry, Result<(), ErrorView>) {
    match registry_position(reg, name) {
        Some(i) => (reg.remove(i), Ok(())),
        None => (reg, Err(ErrorView::IndexNotFound(not_found_message(name)))),
    }
}

/// The index registered under `name`, or the answer that there is none.
pub open spec fn get_spec(reg: Registry, name: Seq<char>) -> Result<tantivy::Index, ErrorView> {
    match registry_position(reg, name) {
        Some(i) => Ok(reg[i].1),
        None => Err(ErrorView::IndexNotFound(not_found_message(name))),
    }
}

/// A registry holds each name once.
pub open spec fn registry_wf(reg: Registry) -> bool {
    registry_names(reg).no_duplicates()
}

spec fn entries_view(entries: Seq<IndexEntry>) -> Registry {
    entries.map_values(|e: IndexEntry| (e.name@, e.index))
}

// ---------------------------------------------------------------- laws

proof fn lemma_names_push(reg: Registry, name: Seq<char>, index: tantivy::Index)
    ensures
        registry_names(reg.push((name, index))) == registry_names(reg).push(name),
{
    assert(registry_names(reg.push((name, index))) =~= registry_names(reg).push(name));
}

/// Creating an index under a fresh name succeeds, and the name is then listed
/// once more than before, after the names that were there.
pub proof fn law_create_lists_name(reg: Registry, name: Seq<char>, index: tantivy::Index)
    requires
        !registry_names(reg).contains(name),
    ensures
        create_spec(reg, name, index).1 is Ok,
        registry_names(create_spec(reg, name, index).0) == registry_names(reg).push(name),
        registry_names(create_spec(reg, name, index).0).contains(name),
{
    lemma_names_push(reg, name, index);
    assert(registry_names(reg).push(name)[registry_names(reg).len() as int] == name);
}

/// Creating an index under a taken name is refused with "index '<name>'
/// already exists", and the registry stays as it was.
pub proof fn law_create_duplicate_refused(reg: Registry, name: Seq<char>, index: tantivy::Index)
    requires
        registry_names(reg).contains(name),
    ensures
        create_spec(reg, name, index) == (reg, Err::<(), ErrorView>(ErrorView::InvalidDocument(already_exists_message(name)))),
{
}

/// Creating the same name twice: the second attempt is refused.
pub proof fn law_create_twice(reg: Registry, name: Seq<char>, first: tantivy::Index, second: tantivy::Index)
    requires
        !registry_names(reg).contains(name),
    ensures
        create_spec(create_spec(reg, name, first).0, name, second).1
            == Err::<(), ErrorView>(ErrorView::InvalidDocument(already_exists_message(name))),
{
    law_create_lists_name(reg, name, first);
}

/// After an index is created, reading it gives back that index.
pub proof fn law_get_after_create(reg: Registry, name: Seq<char>, index: tantivy::Index)
    requires
        registry_wf(reg),
        !registry_names(reg).contains(name),
    ensures
        get_spec(create_spec(reg, name, index).0, name) == Ok::<tantivy::Index, ErrorView>(index),
{
    law_create_lists_name(reg, name, index);
    let after = create_spec(reg, name, index).0;
    let names = registry_names(after);
    let k = names.index_of(name);
    assert(names[reg.len() as int] == name);
    if k != reg.len() {
        assert(registry_names(reg)[k] == name);
        assert(registry_names(reg).contains(name));
    }
}

/// Reading a name that is not registered is answered "index '<name>' not found".
pub proof fn law_get_missing(reg: Registry, name: Seq<char>)
    requires
        !registry_names(reg).contains(name),
    ensures
        get_spec(reg, name) == Err::<tantivy::Index, ErrorView>(ErrorView::IndexNotFound(not_found_message(name))),
{
}

/// Deleting a name that is not registered is answered "index '<name>' not
/// found", and the registry stays as it was.
pub proof fn law_delete_missing(reg: Registry, name: Seq<char>)
    requires
        !registry_names(reg).contains(name),
    ensures
        delete_spec(reg, name) == (reg, Err::<(), ErrorView>(ErrorView::IndexNotFound(not_found_message(name)))),
{
}

/// Deleting an index that was just created succeeds and gives back the
/// registry as it was before: the name is no longer listed.
pub proof fn law_delete_undoes_create(reg: Registry, name: Seq<char>, index: tantivy::Index)
    requires
        registry_wf(reg),
        !registry_names(reg).contains(name),
    ensures
        delete_spec(create_spec(reg, name, index).0, name) == (reg, Ok::<(), ErrorView>(())),
        !registry_names(delete_spec(create_spec(reg, name, index).0, name).0).contains(name),
{
    law_get_after_create(reg, name, index);
    let after = create_spec(reg, name, index).0;
    let k = registry_names(after).index_of(name);
    assert(registry_names(after)[k] == name);
    if k != reg.len() {
        assert(registry_names(reg)[k] == name);
    }
    assert(registry_position(after, name) == Some(reg.len() as int));
    assert(after.remove(reg.len() as int) =~= reg);
}

/// Creating or deleting one name leaves what every other name reads as it was.
pub proof fn law_other_names_unaffected(reg: Registry, name: Seq<char>, other: Seq<char>, index: tantivy::Index)
    requires
        registry_wf(reg),
        name != other,
    ensures
        get_spec(create_spec(reg, name, index).0, other) == get_spec(reg, other),
        get_spec(delete_spec(reg, name).0, other) == get_spec(reg, other),
{
    let names = registry_names(reg);
    // create
    if !names.contains(name) {
        lemma_names_push(reg, name, index);
        let after = reg.push((name, index));
        let an = registry_names(after);
        if names.contains(other) {
            let k = names.index_of(other);
            assert(an[k] == other);
            let k2 = an.index_of(other);
            assert(an[k2] == other);
            assert(k2 != reg.len());
            assert(names[k2] == other);
            assert(after[k] == reg[k]);
        } else {
            if an.contains(other) {
                let k2 = an.index_of(other);
                assert(an[k2] == other);
                assert(k2 != reg.len());
                assert(names[k2] == other);
            }
        }
    }
    // delete
    if names.contains(name) {
        let i = names.index_of(name);
        assert(names[i] == name);
        let after = reg.remove(i);
        let an = registry_names(after);
        assert(an =~= names.remove(i));
        if names.contains(other) {
            let k = names.index_of(other);
            assert(names[k] == other);
            assert(k != i);
            let k1 = if k < i { k } else { k - 1 };
            assert(an[k1] == other);
            let k2 = an.index_of(other);
            assert(an[k2] == other);
            let k3 = if k2 < i { k2 } else { k2 + 1 };
            assert(names[k3] == other);
            assert(k3 == k);
            assert(after[k2] == reg[k]);
        } else {
            if an.contains(other) {
                let k2 = an.index_of(other);
                assert(an[k2] == other);
                let k3 = if k2 < i { k2 } else { k2 + 1 };
                assert(names[k3] == other);
            }
        }
    }
}

/// Every operation keeps each name registered once.
pub proof fn law_registry_stays_wf(reg: Registry, name: Seq<char>, index: tantivy::Index)
    requires
        registry_wf(reg),
    ensures
        registry_wf(create_spec(reg, name, index).0),
        registry_wf(delete_spec(reg, name).0),
{
    let names = registry_names(reg);
    if !names.contains(name) {
        lemma_names_push(reg, name, index);
        let an = names.push(name);
        assert forall|a: int, b: int| 0 <= a < an.len() && 0 <= b < an.len() && a != b
            implies an[a] != an[b] by {
            if a == names.len() || b == names.len() {
                if an[a] == an[b] {
                    let k = if a == names.len() { b } else { a };
                    assert(names[k] == name);
                }
            }
        }
    }
    if names.contains(name) {
        let i = names.index_of(name);
        let an = registry_names(reg.remove(i));
        assert(an =~= names.remove(i));
        assert forall|a: int, b: int| 0 <= a < an.len() && 0 <= b < an.len() && a != b
            implies an[a] != an[b] by {
            let a2 = if a < i { a } else { a + 1 };
            let b2 = if b < i { b } else { b + 1 };
            assert(an[a] == names[a2]);
            assert(an[b] == names[b2]);
        }
    }
}

/// Deleting a registered name succeeds wherever the name stands: afterwards
/// the name is no longer registered and reads as not found, every other name
/// stays registered with the index it had, and one name fewer is listed.
pub proof fn law_delete_removes_name(reg: Registry, name: Seq<char>)
    requires
        registry_wf(reg),
        registry_names(reg).contains(name),
    ensures
        delete_spec(reg, name).1 is Ok,
        !registry_names(delete_spec(reg, name).0).contains(name),
        get_spec(delete_spec(reg, name).0, name) is Err,
        registry_names(delete_spec(reg, name).0).len() + 1 == registry_names(reg).len(),
        forall|other: Seq<char>| other != name ==>
            (#[trigger] registry_names(delete_spec(reg, name).0).contains(other)) == registry_names(reg).contains(other),
        forall|other: Seq<char>| other != name ==>
            #[trigger] get_spec(delete_spec(reg, name).0, other) == get_spec(reg, other),
{
    let names = registry_names(reg);
    let i = names.index_of(name);
    assert(names[i] == name);
    let after = reg.remove(i);
    let an = registry_names(after);
    assert(an =~= names.remove(i));
    if an.contains(name) {
        let k = choose|k: int| 0 <= k < an.len() && an[k] == name;
        let k2 = if k < i { k } else { k + 1 };
        assert(names[k2] == name);
    }
    assert forall|other: Seq<char>| other != name implies
        (#[trigger] an.contains(other)) == names.contains(other) by {
        if an.contains(other) {
            let k = choose|k: int| 0 <= k < an.len() && an[k] == other;
            let k2 = if k < i { k } else { k + 1 };
            assert(names[k2] == other);
        }
        if names.contains(other) {
            let k = choose|k: int| 0 <= k < names.len() && names[k] == other;
            assert(k != i);
            let k1 = if k < i { k } else { k - 1 };
            assert(an[k1] == other);
        }
    }
    assert forall|other: Seq<char>| other != name implies
        #[trigger] get_spec(after, other) == get_spec(reg, other) by {
        law_other_names_unaffected(reg, name, other, reg[0].1);
    }
}

impl View for IndexManager {
    type V = Registry;

    closed spec fn view(&self) -> Registry {
        entries_view(self.entries@)
    }
}

impl IndexManager {
    #[verifier::type_invariant]
    closed spec fn wf(self) -> bool {
        registry_wf(self@)
    }

    /// The directory under which the indexes' files live.
    pub closed spec fn spec_data_dir(&self) -> Seq<char> {
        self.data_dir@
    }

    /// An empty registry over the directory `data_dir`.
    pub fn new(data_dir: String) -> (m: IndexManager)
        ensures
            m@ == Registry::empty(),
            m.spec_data_dir() == data_dir@,
    {
        let m = IndexManager { entries: Vec::new(), data_dir };
        assert(m@ =~= Registry::empty());
        m
    }

    /// The directory under which the indexes' files live.
    pub fn data_dir(&self) -> (r: &str)
        ensures
            r@ == self.spec_data_dir(),
    {
        self.data_dir.as_str()
    }

    fn find(&self, name: &str) -> (r: Option<usize>)
        ensures
            match registry_position(self@, name@) {
                Some(p) => r matches Some(i) && i as int == p && 0 <= p < self@.len() && self@[p].0 == name@,
                None => r is None,
            },
    {
        proof { use_type_invariant(self); }
        let key = String::from_str(name);
        let ghost names = registry_names(self@);
        let mut i: usize = 0;
        while i < self.entries.len()
            invariant
                i <= self.entries@.len(),
                key@ == name@,
                names == registry_names(self@),
                names.len() == self.entries@.len(),
                registry_wf(self@),
                forall|j: int| 0 <= j < i ==> names[j] != name@,
            decreases self.entries.len() - i,
        {
            assert(names[i as int] == self.entries@[i as int].name@);
            if self.entries[i].name == key {
                proof {
                    assert(names[i as int] == name@);
                    assert(names.contains(name@));
                    let k = names.index_of(name@);
                    assert(names[k] == name@);
                }
                return Some(i);
            }
            i = i + 1;
        }
        None
    }

    /// Whether an index may be created under `name`: refused when the name is
    /// taken. Called before the index's files are made.
    pub fn check_create(&self, name: &str) -> (r: Result<(), EnzinError>)
        ensures
            match create_check(self@, name@) {
                Ok(()) => r is Ok,
                Err(e) => r matches Err(err) && err@ == e,
            },
    {
        proof { reveal_strlit("index '"); reveal_strlit("' already exists"); }
        match self.find(name) {
            Some(_) => {
                proof { assert(registry_names(self@)[registry_position(self@, name@)->0] == name@); }
                Err(EnzinError::InvalidDocument(join3("index '", name, "' already exists")))
            },
            None => Ok(()),
        }
    }

    /// Registers `index` under `name`, unless the name is taken.
    pub fn create_index(&mut self, name: &str, index: tantivy::Index) -> (r: Result<(), EnzinError>)
        ensures
            final(self)@ == create_spec(old(self)@, name@, index).0,
            match create_spec(old(self)@, name@, index).1 {
                Ok(()) => r is Ok,
                Err(e) => r matches Err(err) && err@ == e,
            },
            final(self).spec_data_dir() == old(self).spec_data_dir(),
    {
        proof { use_type_invariant(&*self); }
        match self.check_create(name) {
            Err(e) => Err(e),
            Ok(()) => {
                let ghost before = self@;
                let entry = IndexEntry { name: String::from_str(name), index };
                let mut entries: Vec<IndexEntry> = Vec::new();
                std::mem::swap(&mut entries, &mut self.entries);
                entries.push(entry);
                proof {
                    assert(entries_view(entries@) =~= before.push((name@, index)));
                    let names = registry_names(entries_view(entries@));
                    assert(names =~= registry_names(before).push(name@));
                    assert(names.no_duplicates()) by {
                        assert forall|a: int, b: int| 0 <= a < names.len() && 0 <= b < names.len() && a != b
                            implies names[a] != names[b] by {
                            if a == names.len() - 1 || b == names.len() - 1 {
                                if names[a] == names[b] {
                                    let k = if a == names.len() - 1 { b } else { a };
                                    assert(registry_names(before)[k] == name@);
                                    assert(registry_names(before).contains(name@));
                                }
                            }
                        }
                    }
                }
                self.entries = entries;
                Ok(())
            },
        }
    }

    /// Removes the index `name` from the registry; refused when there is none.
    pub fn delete_index(&mut self, name: &str) -> (r: Result<(), EnzinError>)
        ensures
            final(self)@ == delete_spec(old(self)@, name@).0,
            match delete_spec(old(self)@, name@).1 {
                Ok(()) => r is Ok,
                Err(e) => r matches Err(err) && err@ == e,
            },
            final(self).spec_data_dir() == old(self).spec_data_dir(),
    {
        proof { use_type_invariant(&*self); reveal_strlit("index '"); reveal_strlit("' not found"); }
        match self.find(name) {
            None => Err(EnzinError::IndexNotFound(join3("index '", name, "' not found"))),
            Some(i) => {
                let ghost before = self@;
                let mut entries: Vec<IndexEntry> = Vec::new();
                std::mem::swap(&mut entries, &mut self.entries);
                let _removed = entries.remove(i);
                proof {
                    assert(entries_view(entries@) =~= before.remove(i as int));
                    let names = registry_names(entries_view(entries@));
                    let old_names = registry_names(before);
                    assert(names =~= old_names.remove(i as int));
                    assert(names.no_duplicates()) by {
                        assert forall|a: int, b: int| 0 <= a < names.len() && 0 <= b < names.len() && a != b
                            implies names[a] != names[b] by {
                            let a2 = if a < i { a } else { a + 1 };
                            let b2 = if b < i { b } else { b + 1 };
                            assert(names[a] == old_names[a2]);
                            assert(names[b] == old_names[b2]);
                        }
                    }
                }
                self.entries = entries;
                Ok(())
            },
        }
    }

    /// The index registered under `name`; refused when there is none.
    pub fn get_index(&self, name: &str) -> (r: Result<&tantivy::Index, EnzinError>)
        ensures
            match get_spec(self@, name@) {
                Ok(ix) => r matches Ok(found) && *found == ix,
                Err(e) => r matches Err(err) && err@ == e,
            },
    {
        proof { reveal_strlit("index '"); reveal_strlit("' not found"); }
        match self.find(name) {
            None => Err(EnzinError::IndexNotFound(join3("index '", name, "' not found"))),
            Some(i) => {
                assert(i as int == registry_position(self@, name@)->0);
                assert(self@[i as int].1 == self.entries@[i as int].index);
                let found = &self.entries[i].index;
                assert(*found == get_spec(self@, name@)->Ok_0);
                Ok(found)
            },
        }
    }

    /// The names of the registered indexes.
    pub fn list_indexes(&self) -> (r: Vec<String>)
        ensures
            r@.map_values(|s: String| s@) == registry_names(self@),
            r@.map_values(|s: String| s@).no_duplicates(),
    {
        proof { use_type_invariant(self); }
        let mut r: Vec<String> = Vec::new();
        let mut i: usize = 0;
        while i < self.entries.len()
            invariant
                i <= self.entries@.len(),
                r@.map_values(|s: String| s@) == registry_names(self@).take(i as int),
            decreases self.entries.len() - i,
        {
            assert(registry_names(self@)[i as int] == self.entries@[i as int].name@);
            let ghost prev = r@;
            r.push(self.entries[i].name.clone());
            assert(r@ == prev.push(self.entries@[i as int].name));
            assert(registry_names(self@).take(i + 1) =~= registry_names(self@).take(i as int).push(self.entries@[i as int].name@));
            assert(r@.map_values(|s: String| s@) =~= registry_names(self@).take(i + 1));
            i = i + 1;
        }
        assert(registry_names(self@).take(i as int) =~= registry_names(self@));
        r
    }
}

} // verus!
