//! The project library: the stored projects keyed by identifier (saving
//! replaces a project with the same identifier), which files of the store
//! directory hold projects, the name of a project's file, and the order in
//! which the library lists them (most recently modified first).
use crate::asset::Project;
use crate::ids::{uuid_hyphenated, uuid_text};
use crate::job_store::is_job_file_name;
use crate::text::{chars_of, ends_with_str, push_str, starts_with_str};
use vstd::prelude::*;

verus! {

/// A file of the store directory holds a project: it ends in `.json` and is
/// neither a temporary write (`temp_`) nor a quarantined corrupt file
/// (`corrupted_`). Job files follow the same rule.
pub open spec fn is_project_file_name(name: Seq<char>) -> bool {
    is_job_file_name(name)
}

/// The file name is that of a stored project.
pub fn is_project_file(name: &str) -> (r: bool)
    ensures
        r == is_project_file_name(name@),
{
    let chars = chars_of(name);
    ends_with_str(&chars, ".json") && !starts_with_str(&chars, "temp_") && !starts_with_str(
        &chars,
        "corrupted_",
    )
}

/// Name of the file holding project `id`: its hyphenated UUID and `.json`.
pub fn project_file_name(id: u128) -> (s: String)
    ensures
        s@ == uuid_text(id) + ".json"@,
{
    let mut s = uuid_hyphenated(id);
    push_str(&mut s, ".json");
    s
}

/// Position `a` is listed before position `b`: it was modified later, or at
/// the same time and read first.
pub open spec fn listed_before(modified: Seq<i64>, a: int, b: int) -> bool {
    modified[a] > modified[b] || (modified[a] == modified[b] && a < b)
}

/// `order` lists the positions `0..modified.len()`, each once, most
/// recently modified first and, among equal times, in reading order.
pub open spec fn newest_first_order(modified: Seq<i64>, order: Seq<usize>) -> bool {
    &&& order.len() == modified.len()
    &&& forall|p: int| 0 <= p < order.len() ==> #[trigger] order[p] < modified.len()
    &&& forall|j: int| 0 <= j < modified.len() ==> #[trigger] order.contains(j as usize)
    &&& forall|p: int, q: int|
        0 <= p < q < order.len() ==> listed_before(modified, #[trigger] order[p] as int, #[trigger] order[q] as int)
}

/// The listing order of projects read with the given modification times:
/// most recently modified first; projects modified at the same time keep
/// the order in which they were read.
pub fn newest_first(modified: &Vec<i64>) -> (r: Vec<usize>)
    ensures
        newest_first_order(modified@, r@),
{
    let n = modified.len();
    let mut order: Vec<usize> = Vec::new();
    let mut i: usize = 0;
    while i < n
        invariant
            i <= n,
            n == modified@.len(),
            order@.len() == i,
            forall|p: int| 0 <= p < order@.len() ==> #[trigger] order@[p] < i,
            forall|j: int| 0 <= j < i ==> #[trigger] order@.contains(j as usize),
            forall|p: int, q: int|
                0 <= p < q < order@.len() ==> listed_before(
                    modified@,
                    #[trigger] order@[p] as int,
                    #[trigger] order@[q] as int,
                ),
        decreases n - i,
    {
        let key = modified[i];
        let mut pos: usize = 0;
        while pos < order.len() && modified[order[pos]] >= key
            invariant
                pos <= order@.len(),
                n == modified@.len(),
                i < n,
                key == modified@[i as int],
                forall|p: int| 0 <= p < order@.len() ==> #[trigger] order@[p] < i,
                forall|p: int| 0 <= p < pos ==> modified@[#[trigger] order@[p] as int] >= key,
            decreases order@.len() - pos,
        {
            pos = pos + 1;
        }
        proof {
            if pos < order@.len() {
                assert(modified@[order@[pos as int] as int] < key);
                assert forall|q: int| pos <= q < order@.len() implies modified@[#[trigger] order@[q] as int]
                    < key by {
                    if q > pos {
                        assert(listed_before(modified@, order@[pos as int] as int, order@[q] as int));
                    }
                }
            }
        }
        let ghost before = order@;
        order.insert(pos, i);
        proof {
            assert(order@ == before.insert(pos as int, i));
            assert forall|p: int| 0 <= p < order@.len() implies #[trigger] order@[p] < i + 1 by {
                if p < pos {
                    assert(order@[p] == before[p]);
                } else if p > pos {
                    assert(order@[p] == before[p - 1]);
                }
            }
            assert forall|j: int| 0 <= j < i + 1 implies #[trigger] order@.contains(j as usize) by {
                if j == i {
                    assert(order@[pos as int] == i);
                } else {
                    assert(before.contains(j as usize));
                    let p = choose|p: int| 0 <= p < before.len() && before[p] == j as usize;
                    if p < pos {
                        assert(order@[p] == before[p]);
                    } else {
                        assert(order@[p + 1] == before[p]);
                    }
                }
            }
            assert forall|p: int, q: int| 0 <= p < q < order@.len() implies listed_before(
                modified@,
                #[trigger] order@[p] as int,
                #[trigger] order@[q] as int,
            ) by {
                if q < pos {
                    assert(order@[p] == before[p] && order@[q] == before[q]);
                } else if q == pos {
                    assert(order@[p] == before[p]);
                    assert(before[p] < i);
                } else if p > pos {
                    assert(order@[p] == before[p - 1] && order@[q] == before[q - 1]);
                } else if p == pos {
                    assert(order@[q] == before[q - 1]);
                } else {
                    assert(order@[p] == before[p] && order@[q] == before[q - 1]);
                }
            }
        }
        i = i + 1;
    }
    order
}

/// The projects keyed by identifier (a later entry with the same
/// identifier wins).
pub open spec fn project_map(s: Seq<Project>) -> Map<u128, Project>
    decreases s.len(),
{
    if s.len() == 0 {
        Map::empty()
    } else {
        project_map(s.drop_last()).insert(s.last().id, s.last())
    }
}

/// No two entries share an identifier.
pub open spec fn distinct_ids(s: Seq<Project>) -> bool {
    forall|i: int, j: int| 0 <= i < s.len() && 0 <= j < s.len() && i != j ==> s[i].id != s[j].id
}

proof fn lemma_distinct_drop_last(s: Seq<Project>)
    requires
        distinct_ids(s),
        s.len() > 0,
    ensures
        distinct_ids(s.drop_last()),
        forall|i: int| 0 <= i < s.len() - 1 ==> s[i].id != s.last().id,
{
    assert forall|i: int| 0 <= i < s.len() - 1 implies s[i].id != s.last().id by {
        assert(s[i].id != s[s.len() - 1].id);
    }
}

proof fn lemma_project_map_contains(s: Seq<Project>, id: u128)
    ensures
        project_map(s).contains_key(id) <==> exists|i: int| 0 <= i < s.len() && s[i].id == id,
        project_map(s).dom().finite(),
        project_map(s).dom().len() <= s.len(),
    decreases s.len(),
{
    if s.len() > 0 {
        lemma_project_map_contains(s.drop_last(), id);
        if exists|i: int| 0 <= i < s.len() && s[i].id == id {
            let i = choose|i: int| 0 <= i < s.len() && s[i].id == id;
            if i < s.len() - 1 {
                assert(s.drop_last()[i].id == id);
            }
        }
        if exists|i: int| 0 <= i < s.len() - 1 && s.drop_last()[i].id == id {
            let i = choose|i: int| 0 <= i < s.len() - 1 && s.drop_last()[i].id == id;
            assert(s[i].id == id);
        }
    }
}

proof fn lemma_project_map_index(s: Seq<Project>, i: int)
    requires
        distinct_ids(s),
        0 <= i < s.len(),
    ensures
        project_map(s).contains_key(s[i].id),
        project_map(s)[s[i].id] == s[i],
    decreases s.len(),
{
    if i < s.len() - 1 {
        lemma_distinct_drop_last(s);
        lemma_project_map_index(s.drop_last(), i);
        assert(s.drop_last()[i] == s[i]);
    }
}

proof fn lemma_project_map_update(s: Seq<Project>, i: int, v: Project)
    requires
        distinct_ids(s),
        0 <= i < s.len(),
        v.id == s[i].id,
    ensures
        distinct_ids(s.update(i, v)),
        project_map(s.update(i, v)) == project_map(s).insert(v.id, v),
    decreases s.len(),
{
    let t = s.update(i, v);
    assert forall|a: int, b: int| 0 <= a < t.len() && 0 <= b < t.len() && a != b implies t[a].id
        != t[b].id by {
        assert(t[a].id == s[a].id && t[b].id == s[b].id);
    }
    if i == s.len() - 1 {
        assert(t.drop_last() =~= s.drop_last());
        assert(project_map(t) =~= project_map(s).insert(v.id, v));
    } else {
        lemma_distinct_drop_last(s);
        assert(t.drop_last() =~= s.drop_last().update(i, v));
        lemma_project_map_update(s.drop_last(), i, v);
        assert(t.last() == s.last());
        assert(project_map(t) =~= project_map(s).insert(v.id, v));
    }
}

proof fn lemma_project_map_push(s: Seq<Project>, v: Project)
    requires
        distinct_ids(s),
        !project_map(s).contains_key(v.id),
    ensures
        distinct_ids(s.push(v)),
        project_map(s.push(v)) == project_map(s).insert(v.id, v),
{
    let t = s.push(v);
    assert(t.drop_last() =~= s);
    lemma_project_map_contains(s, v.id);
    assert forall|a: int, b: int| 0 <= a < t.len() && 0 <= b < t.len() && a != b implies t[a].id
        != t[b].id by {
        if a == s.len() {
            assert(t[b] == s[b]);
        } else if b == s.len() {
            assert(t[a] == s[a]);
        } else {
            assert(t[a] == s[a] && t[b] == s[b]);
        }
    }
}

proof fn lemma_project_map_remove(s: Seq<Project>, i: int)
    requires
        distinct_ids(s),
        0 <= i < s.len(),
    ensures
        distinct_ids(s.remove(i)),
        project_map(s.remove(i)) == project_map(s).remove(s[i].id),
    decreases s.len(),
{
    let t = s.remove(i);
    let id = s[i].id;
    assert forall|a: int, b: int| 0 <= a < t.len() && 0 <= b < t.len() && a != b implies t[a].id
        != t[b].id by {
        let sa = if a < i { a } else { a + 1 };
        let sb = if b < i { b } else { b + 1 };
        assert(t[a] == s[sa] && t[b] == s[sb]);
    }
    lemma_distinct_drop_last(s);
    if i == s.len() - 1 {
        assert(t =~= s.drop_last());
        lemma_project_map_contains(s.drop_last(), id);
        assert(project_map(t) =~= project_map(s).remove(id));
    } else {
        assert(t.drop_last() =~= s.drop_last().remove(i));
        assert(t.last() == s.last());
        lemma_project_map_remove(s.drop_last(), i);
        assert(s.drop_last()[i] == s[i]);
        assert(s.last().id != id);
        assert(project_map(t) =~= project_map(s).remove(id));
    }
}

/// The stored projects: one per project identifier.
pub struct ProjectStore {
    projects: Vec<Project>,
}

impl ProjectStore {
    #[verifier::type_invariant]
    closed spec fn ids_distinct(&self) -> bool {
        distinct_ids(self.projects@)
    }

    /// The stored projects keyed by identifier.
    pub closed spec fn library(&self) -> Map<u128, Project> {
        project_map(self.projects@)
    }

    /// An empty library.
    pub fn new() -> (r: ProjectStore)
        ensures
            r.library() == Map::<u128, Project>::empty(),
    {
        ProjectStore { projects: Vec::new() }
    }

    /// Index of the project with identifier `id`.
    fn position(&self, id: u128) -> (r: Option<usize>)
        ensures
            match r {
                Some(i) => i < self.projects@.len() && self.projects@[i as int].id == id
                    && self.library().contains_key(id) && self.library()[id] == self.projects@[i as int],
                None => !self.library().contains_key(id),
            },
    {
        proof {
            use_type_invariant(self);
        }
        let mut i: usize = 0;
        while i < self.projects.len()
            invariant
                i <= self.projects@.len(),
                distinct_ids(self.projects@),
                forall|j: int| 0 <= j < i ==> self.projects@[j].id != id,
            decreases self.projects@.len() - i,
        {
            if self.projects[i].id == id {
                proof {
                    lemma_project_map_index(self.projects@, i as int);
                }
                return Some(i);
            }
            i = i + 1;
        }
        proof {
            lemma_project_map_contains(self.projects@, id);
        }
        None
    }

    /// Stores `project`, replacing the project with the same identifier if
    /// there is one (re-saving a project updates it in place).
    pub fn save(&mut self, project: Project)
        ensures
            final(self).library() == old(self).library().insert(project.id, project),
    {
        proof {
            use_type_invariant(&*self);
        }
        let ghost v = project;
        let ghost before = self.projects@;
        let pos = self.position(project.id);
        let mut all: Vec<Project> = Vec::new();
        std::mem::swap(&mut all, &mut self.projects);
        match pos {
            Some(i) => {
                all.set(i, project);
                proof {
                    lemma_project_map_update(before, i as int, v);
                }
            },
            None => {
                all.push(project);
                proof {
                    lemma_project_map_push(before, v);
                }
            },
        }
        self.projects = all;
    }

    /// The stored project with identifier `id`, if any.
    pub fn get(&self, id: u128) -> (r: Option<&Project>)
        ensures
            match r {
                Some(p) => self.library().contains_key(id) && *p == self.library()[id],
                None => !self.library().contains_key(id),
            },
    {
        match self.position(id) {
            Some(i) => Some(&self.projects[i]),
            None => None,
        }
    }

    /// Removes the project with identifier `id`; removing a missing project
    /// changes nothing.
    pub fn delete(&mut self, id: u128)
        ensures
            final(self).library() == old(self).library().remove(id),
    {
        proof {
            use_type_invariant(&*self);
        }
        let ghost before = self.projects@;
        match self.position(id) {
            Some(i) => {
                let mut all: Vec<Project> = Vec::new();
                std::mem::swap(&mut all, &mut self.projects);
                all.remove(i);
                proof {
                    lemma_project_map_remove(before, i as int);
                }
                self.projects = all;
            },
            None => {
                assert(self.library() =~= self.library().remove(id));
            },
        }
    }

    /// All stored projects, each once, most recently modified first.
    pub fn list(&self) -> (r: Vec<&Project>)
        ensures
            forall|p: int|
                0 <= p < r@.len() ==> self.library().contains_key((#[trigger] r@[p]).id)
                    && self.library()[r@[p].id] == *r@[p],
            forall|id: u128|
                self.library().contains_key(id) ==> exists|p: int|
                    0 <= p < r@.len() && (#[trigger] r@[p]).id == id,
            forall|p: int, q: int|
                0 <= p < q < r@.len() ==> (#[trigger] r@[p]).id != (#[trigger] r@[q]).id
                    && r@[p].modified_at_ms >= r@[q].modified_at_ms,
    {
        proof {
            use_type_invariant(self);
        }
        let n = self.projects.len();
        let mut modified: Vec<i64> = Vec::new();
        let mut j: usize = 0;
        while j < n
            invariant
                j <= n,
                n == self.projects@.len(),
                modified@.len() == j,
                forall|k: int| 0 <= k < j ==> modified@[k] == #[trigger] self.projects@[k].modified_at_ms,
            decreases n - j,
        {
            modified.push(self.projects[j].modified_at_ms);
            j = j + 1;
        }
        let order = newest_first(&modified);
        let mut r: Vec<&Project> = Vec::new();
        let mut k: usize = 0;
        while k < order.len()
            invariant
                k <= order@.len(),
                n == self.projects@.len(),
                modified@.len() == n,
                forall|i: int| 0 <= i < n ==> modified@[i] == #[trigger] self.projects@[i].modified_at_ms,
                newest_first_order(modified@, order@),
                r@.len() == k,
                forall|p: int| 0 <= p < k ==> *(#[trigger] r@[p]) == self.projects@[order@[p] as int],
            decreases order@.len() - k,
        {
            r.push(&self.projects[order[k]]);
            k = k + 1;
        }
        proof {
            let s = self.projects@;
            assert forall|p: int| 0 <= p < r@.len() implies self.library().contains_key(
                (#[trigger] r@[p]).id,
            ) && self.library()[r@[p].id] == *r@[p] by {
                lemma_project_map_index(s, order@[p] as int);
            }
            assert forall|id: u128| self.library().contains_key(id) implies exists|p: int|
                0 <= p < r@.len() && (#[trigger] r@[p]).id == id by {
                lemma_project_map_contains(s, id);
                let i = choose|i: int| 0 <= i < s.len() && s[i].id == id;
                assert(order@.contains(i as usize));
                let p = choose|p: int| 0 <= p < order@.len() && order@[p] == i as usize;
                assert(r@[p].id == id);
            }
            assert forall|p: int, q: int| 0 <= p < q < r@.len() implies (#[trigger] r@[p]).id != (
            #[trigger] r@[q]).id && r@[p].modified_at_ms >= r@[q].modified_at_ms by {
                assert(listed_before(modified@, order@[p] as int, order@[q] as int));
                assert(order@[p] != order@[q]);
            }
        }
        r
    }
}

/// Reading a project back after saving it gives the saved project, and
/// saving it leaves every other project as it was.
pub proof fn law_save_reads_back(library: Map<u128, Project>, project: Project, other: u128)
    ensures
        library.insert(project.id, project)[project.id] == project,
        other != project.id ==> (library.insert(project.id, project).contains_key(other)
            <==> library.contains_key(other)) && library.insert(project.id, project)[other]
            == library[other],
{
}

/// Saving a project that is already stored keeps one entry for it: the
/// number of stored projects grows only when the identifier is new.
pub proof fn law_save_is_upsert(store: ProjectStore, project: Project)
    ensures
        store.library().dom().finite(),
        store.library().insert(project.id, project).len() == if store.library().contains_key(
            project.id,
        ) {
            store.library().len()
        } else {
            store.library().len() + 1
        },
{
    lemma_project_map_contains(store.projects@, project.id);
}

/// After a delete the project reads as missing, and deleting again changes
/// nothing.
pub proof fn law_delete_forgets(library: Map<u128, Project>, id: u128)
    ensures
        !library.remove(id).contains_key(id),
        library.remove(id).remove(id) == library.remove(id),
{
    assert(library.remove(id).remove(id) =~= library.remove(id));
}

} // verus!
