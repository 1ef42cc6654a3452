//! The project store: the project rows of one project file, the set of
//! project directories under the projects root, and the operations that
//! keep the two in step with the client store.
//!
//! The caller loads the row table from the file bytes (`csvio`) and the
//! directory names from a listing of the projects root; after an operation
//! it persists the table and mirrors the returned directory change on disk.

use vstd::prelude::*;

use crate::client_store::{client_ids, spec_client_index, ClientFileRepository};
use crate::codec::{
    convert_csv_to_project, convert_project_to_csv, get_folder_path_suffix,
    project_valid_for_storage, spec_effective_suffix, spec_project_to_row, spec_row_to_project,
};
use crate::ids::{
    decimal_digits, lemma_decimal_digits_props, lemma_max_id_val_bounds, lemma_next_id_monotonic,
    lemma_parsed_rendered_id, max_id_val, next_id_val, parse_id, parsed_id, render_id, MAX_ID,
};
use crate::model::{ClientV, Project, ProjectCSV, ProjectV, StoreError};
use crate::paths::{path_leaf, path_leaf_of};
use crate::text::str_eq;

verus! {

/// The id strings of a project row table, in order.
pub open spec fn stored_project_ids(ps: Seq<ProjectCSV>) -> Seq<Seq<char>> {
    ps.map_values(|p: ProjectCSV| p@.id)
}

/// The position of the first row whose id matches, or `-1`.
pub open spec fn spec_project_index(ps: Seq<ProjectCSV>, id: Seq<char>) -> int
    decreases ps.len(),
{
    if ps.len() == 0 {
        -1
    } else if ps[0]@.id == id {
        0
    } else {
        let rest = spec_project_index(ps.drop_first(), id);
        if rest == -1 {
            -1
        } else {
            rest + 1
        }
    }
}

/// What the index of the first matching row means.
pub proof fn lemma_project_index_props(ps: Seq<ProjectCSV>, id: Seq<char>)
    ensures
        -1 <= spec_project_index(ps, id) < ps.len(),
        spec_project_index(ps, id) == -1 ==> (forall|k: int|
            0 <= k < ps.len() ==> (#[trigger] ps[k])@.id != id),
        spec_project_index(ps, id) >= 0 ==> {
            let j = spec_project_index(ps, id);
            &&& j < ps.len()
            &&& ps[j]@.id == id
            &&& forall|k: int| 0 <= k < j ==> (#[trigger] ps[k])@.id != id
        },
    decreases ps.len(),
{
    if ps.len() > 0 && ps[0]@.id != id {
        let t = ps.drop_first();
        lemma_project_index_props(t, id);
        assert(forall|k: int| 0 <= k < t.len() ==> #[trigger] t[k] == ps[k + 1]);
        let rest = spec_project_index(t, id);
        if rest == -1 {
            assert forall|k: int| 0 <= k < ps.len() implies (#[trigger] ps[k])@.id != id by {
                if k > 0 {
                    assert(t[k - 1] == ps[k]);
                }
            }
        } else {
            assert(ps[rest + 1] == t[rest]);
            assert forall|k: int| 0 <= k < rest + 1 implies (#[trigger] ps[k])@.id != id by {
                if k > 0 {
                    assert(t[k - 1] == ps[k]);
                }
            }
        }
    }
}

/// The position of the first directory with the given name, or `-1`.
pub open spec fn spec_dir_index(ds: Seq<String>, name: Seq<char>) -> int
    decreases ds.len(),
{
    if ds.len() == 0 {
        -1
    } else if ds[0]@ == name {
        0
    } else {
        let rest = spec_dir_index(ds.drop_first(), name);
        if rest == -1 {
            -1
        } else {
            rest + 1
        }
    }
}

/// What the index of the first matching directory means.
pub proof fn lemma_dir_index_props(ds: Seq<String>, name: Seq<char>)
    ensures
        -1 <= spec_dir_index(ds, name) < ds.len(),
        spec_dir_index(ds, name) == -1 ==> (forall|k: int|
            0 <= k < ds.len() ==> (#[trigger] ds[k])@ != name),
        spec_dir_index(ds, name) >= 0 ==> {
            let j = spec_dir_index(ds, name);
            &&& j < ds.len()
            &&& ds[j]@ == name
            &&& forall|k: int| 0 <= k < j ==> (#[trigger] ds[k])@ != name
        },
    decreases ds.len(),
{
    if ds.len() > 0 && ds[0]@ != name {
        let t = ds.drop_first();
        lemma_dir_index_props(t, name);
        assert(forall|k: int| 0 <= k < t.len() ==> #[trigger] t[k] == ds[k + 1]);
        let rest = spec_dir_index(t, name);
        if rest == -1 {
            assert forall|k: int| 0 <= k < ds.len() implies (#[trigger] ds[k])@ != name by {
                if k > 0 {
                    assert(t[k - 1] == ds[k]);
                }
            }
        } else {
            assert(ds[rest + 1] == t[rest]);
            assert forall|k: int| 0 <= k < rest + 1 implies (#[trigger] ds[k])@ != name by {
                if k > 0 {
                    assert(t[k - 1] == ds[k]);
                }
            }
        }
    }
}

/// What a successful `add` produced: the assigned id and the name of the
/// directory created for the project under the projects root.
#[derive(Debug)]
pub struct AddOutcome {
    pub id: String,
    pub folder_name: String,
}

/// How a successful `update` changed the project's directory.
#[derive(Debug)]
pub enum DirChange {
    /// The directory name stayed as it was.
    Kept,
    /// The directory must move from the old name to the new one.
    Renamed { old_name: String, new_name: String },
}

/// The project store over one project file and one projects root.
pub struct ProjectFileRepository {
    /// Where the row table is persisted; carried, not read, by this store.
    pub project_file_path: String,
    /// Where the client table of the companion client store is persisted.
    pub client_file_path: String,
    /// The directory under which every project directory lives.
    pub projects_root: String,
    /// The project rows, in file order.
    pub projects: Vec<ProjectCSV>,
    /// The names of the directories now present under the projects root.
    pub dirs: Vec<String>,
}

impl ProjectFileRepository {
    /// A store for the given files and projects root, before any state is
    /// loaded.
    pub fn new(project_file_path: &str, client_file_path: &str, projects_root: &str) -> (r: Self)
        ensures
            r.project_file_path@ == project_file_path@,
            r.client_file_path@ == client_file_path@,
            r.projects_root@ == projects_root@,
            r.projects@.len() == 0,
            r.dirs@.len() == 0,
    {
        ProjectFileRepository {
            project_file_path: String::from_str(project_file_path),
            client_file_path: String::from_str(client_file_path),
            projects_root: String::from_str(projects_root),
            projects: Vec::new(),
            dirs: Vec::new(),
        }
    }

    /// The path of the client file this store's projects resolve their
    /// clients from.
    pub fn get_self_client_file_path(&self) -> (r: String)
        ensures
            r == self.client_file_path,
    {
        self.client_file_path.clone()
    }

    /// The id the store will assign next: one more than the largest value
    /// among the stored row ids, `1` over an empty table.
    pub fn new_project_id(&self) -> (r: u64)
        ensures
            r == next_id_val(stored_project_ids(self.projects@)),
    {
        let ghost ids = stored_project_ids(self.projects@);
        let mut max: u64 = 0;
        let mut i: usize = 0;
        while i < self.projects.len()
            invariant
                0 <= i <= self.projects@.len(),
                ids == stored_project_ids(self.projects@),
                ids.len() == self.projects@.len(),
                max == max_id_val(ids.subrange(0, i as int)),
                max <= MAX_ID,
            decreases self.projects@.len() - i,
        {
            let v = parse_id(self.projects[i].id.as_str());
            proof {
                assert(ids[i as int] == self.projects@[i as int]@.id);
                assert(ids.subrange(0, i as int + 1).drop_last() =~= ids.subrange(0, i as int));
                assert(ids.subrange(0, i as int + 1).last() == ids[i as int]);
                assert(parsed_id(ids[i as int]) <= MAX_ID);
            }
            if v > max {
                max = v;
            }
            i = i + 1;
        }
        proof {
            assert(ids.subrange(0, self.projects@.len() as int) =~= ids);
        }
        max + 1
    }

    fn project_index_of(&self, id: &str) -> (r: Option<usize>)
        ensures
            -1 <= spec_project_index(self.projects@, id@) < self.projects@.len(),
            ({
                let j = spec_project_index(self.projects@, id@);
                if j >= 0 {
                    r matches Some(u) && u == j
                } else {
                    r is None
                }
            }),
    {
        proof {
            lemma_project_index_props(self.projects@, id@);
        }
        let mut i: usize = 0;
        while i < self.projects.len()
            invariant
                0 <= i <= self.projects@.len(),
                forall|k: int| 0 <= k < i ==> (#[trigger] self.projects@[k])@.id != id@,
                -1 <= spec_project_index(self.projects@, id@) < self.projects@.len(),
                spec_project_index(self.projects@, id@) == -1 ==> (forall|k: int|
                    0 <= k < self.projects@.len() ==> (#[trigger] self.projects@[k])@.id != id@),
                spec_project_index(self.projects@, id@) >= 0 ==> {
                    let j = spec_project_index(self.projects@, id@);
                    &&& j < self.projects@.len()
                    &&& self.projects@[j]@.id == id@
                    &&& forall|k: int|
                        0 <= k < j ==> (#[trigger] self.projects@[k])@.id != id@
                },
            decreases self.projects@.len() - i,
        {
            if str_eq(self.projects[i].id.as_str(), id) {
                return Some(i);
            }
            i = i + 1;
        }
        None
    }

    fn dir_index_of(&self, name: &str) -> (r: Option<usize>)
        ensures
            -1 <= spec_dir_index(self.dirs@, name@) < self.dirs@.len(),
            ({
                let j = spec_dir_index(self.dirs@, name@);
                if j >= 0 {
                    r matches Some(u) && u == j
                } else {
                    r is None
                }
            }),
    {
        proof {
            lemma_dir_index_props(self.dirs@, name@);
        }
        let mut i: usize = 0;
        while i < self.dirs.len()
            invariant
                0 <= i <= self.dirs@.len(),
                forall|k: int| 0 <= k < i ==> (#[trigger] self.dirs@[k])@ != name@,
                -1 <= spec_dir_index(self.dirs@, name@) < self.dirs@.len(),
                spec_dir_index(self.dirs@, name@) == -1 ==> (forall|k: int|
                    0 <= k < self.dirs@.len() ==> (#[trigger] self.dirs@[k])@ != name@),
                spec_dir_index(self.dirs@, name@) >= 0 ==> {
                    let j = spec_dir_index(self.dirs@, name@);
                    &&& j < self.dirs@.len()
                    &&& self.dirs@[j]@ == name@
                    &&& forall|k: int| 0 <= k < j ==> (#[trigger] self.dirs@[k])@ != name@
                },
            decreases self.dirs@.len() - i,
        {
            if str_eq(self.dirs[i].as_str(), name) {
                return Some(i);
            }
            i = i + 1;
        }
        None
    }

    /// Every stored project, in file order, each with its client record
    /// resolved from the client store.  A row whose client id has no
    /// client record makes the whole fetch fail: a partial list is never
    /// returned.
    pub fn fetch(&self, clients: &ClientFileRepository) -> (r: Result<Vec<Project>, StoreError>)
        ensures
            (r is Ok <==> (forall|i: int|
                0 <= i < self.projects@.len() ==> spec_client_index(
                    clients.clients@,
                    (#[trigger] self.projects@[i])@.client_id,
                ) >= 0)),
            (r matches Ok(out) ==> out@.len() == self.projects@.len() && (forall|i: int|
                0 <= i < out@.len() ==> (#[trigger] out@[i])@ == spec_row_to_project(
                    self.projects@[i]@,
                    clients.clients@[spec_client_index(
                        clients.clients@,
                        self.projects@[i]@.client_id,
                    )]@,
                ))),
            (r matches Err(e) ==> (e matches StoreError::ReferentialIntegrity { client_id }
                && exists|i: int|
                0 <= i < self.projects@.len() && (#[trigger] self.projects@[i])@.client_id
                    == client_id@ && spec_client_index(clients.clients@, client_id@) < 0)),
    {
        let mut out: Vec<Project> = Vec::new();
        let mut i: usize = 0;
        while i < self.projects.len()
            invariant
                0 <= i <= self.projects@.len(),
                out@.len() == i,
                forall|k: int|
                    0 <= k < i ==> spec_client_index(
                        clients.clients@,
                        (#[trigger] self.projects@[k])@.client_id,
                    ) >= 0,
                forall|k: int|
                    0 <= k < i ==> (#[trigger] out@[k])@ == spec_row_to_project(
                        self.projects@[k]@,
                        clients.clients@[spec_client_index(
                            clients.clients@,
                            self.projects@[k]@.client_id,
                        )]@,
                    ),
            decreases self.projects@.len() - i,
        {
            let row = &self.projects[i];
            match clients.get(row.client_id.as_str()) {
                Some(c) => {
                    let p = convert_csv_to_project(row, c);
                    out.push(p);
                },
                None => {
                    return Err(StoreError::ReferentialIntegrity { client_id: row.client_id.clone() });
                },
            }
            i = i + 1;
        }
        Ok(out)
    }

    /// The stored project with the given id, fully resolved, or nothing;
    /// fails only where `fetch` fails.
    pub fn get(&self, clients: &ClientFileRepository, id: &str) -> (r: Result<
        Option<Project>,
        StoreError,
    >)
        ensures
            (r is Ok <==> (forall|i: int|
                0 <= i < self.projects@.len() ==> spec_client_index(
                    clients.clients@,
                    (#[trigger] self.projects@[i])@.client_id,
                ) >= 0)),
            (r matches Err(e) ==> (e matches StoreError::ReferentialIntegrity { client_id }
                && exists|i: int|
                0 <= i < self.projects@.len() && (#[trigger] self.projects@[i])@.client_id
                    == client_id@ && spec_client_index(clients.clients@, client_id@) < 0)),
            (r matches Ok(opt) ==> ({
                let j = spec_project_index(self.projects@, id@);
                if j >= 0 {
                    opt matches Some(p) && p@ == spec_row_to_project(
                        self.projects@[j]@,
                        clients.clients@[spec_client_index(
                            clients.clients@,
                            self.projects@[j]@.client_id,
                        )]@,
                    )
                } else {
                    opt is None
                }
            })),
    {
        let list = match self.fetch(clients) {
            Ok(list) => list,
            Err(e) => {
                return Err(e);
            },
        };
        proof {
            lemma_project_index_props(self.projects@, id@);
        }
        let mut i: usize = 0;
        while i < list.len()
            invariant
                0 <= i <= list@.len(),
                list@.len() == self.projects@.len(),
                forall|k: int|
                    0 <= k < self.projects@.len() ==> spec_client_index(
                        clients.clients@,
                        (#[trigger] self.projects@[k])@.client_id,
                    ) >= 0,
                forall|k: int|
                    0 <= k < list@.len() ==> (#[trigger] list@[k])@ == spec_row_to_project(
                        self.projects@[k]@,
                        clients.clients@[spec_client_index(
                            clients.clients@,
                            self.projects@[k]@.client_id,
                        )]@,
                    ),
                forall|k: int| 0 <= k < i ==> (#[trigger] self.projects@[k])@.id != id@,
                -1 <= spec_project_index(self.projects@, id@) < self.projects@.len(),
                spec_project_index(self.projects@, id@) == -1 ==> (forall|k: int|
                    0 <= k < self.projects@.len() ==> (#[trigger] self.projects@[k])@.id != id@),
                spec_project_index(self.projects@, id@) >= 0 ==> {
                    let j = spec_project_index(self.projects@, id@);
                    &&& j < self.projects@.len()
                    &&& self.projects@[j]@.id == id@
                    &&& forall|k: int|
                        0 <= k < j ==> (#[trigger] self.projects@[k])@.id != id@
                },
            decreases list@.len() - i,
        {
            if str_eq(list[i].id.as_str(), id) {
                proof {
                    assert(list@[i as int]@.id == self.projects@[i as int]@.id);
                }
                return Ok(Some(list[i].clone()));
            }
            proof {
                assert(list@[i as int]@.id == self.projects@[i as int]@.id);
            }
            i = i + 1;
        }
        Ok(None)
    }

    /// Creates a project: assigns the next id, auto-creates the client
    /// when its id is unknown, refuses a folder name that is already taken
    /// — before any row is stored — and otherwise registers the directory
    /// and appends the row.
    pub fn add(&mut self, clients: &mut ClientFileRepository, new_project: Project) -> (r: Result<
        AddOutcome,
        StoreError,
    >)
        ensures
            final(self).project_file_path == old(self).project_file_path,
            final(self).client_file_path == old(self).client_file_path,
            final(self).projects_root == old(self).projects_root,
            ({
                let n = next_id_val(stored_project_ids(old(self).projects@));
                let cj = spec_client_index(old(clients).clients@, new_project@.client.id);
                let adopted = if cj >= 0 {
                    new_project@.client.id
                } else {
                    decimal_digits(next_id_val(client_ids(old(clients).clients.deep_view())))
                };
                let p2 = (ProjectV {
                    id: decimal_digits(n),
                    client: (ClientV { id: adopted, ..new_project@.client }),
                    ..new_project@
                });
                let eff = spec_effective_suffix(p2);
                &&& (cj >= 0 ==> *final(clients) == *old(clients))
                &&& (cj < 0 ==> (final(clients).file_path == old(clients).file_path && final(clients).clients@.len() == old(clients).clients@.len() + 1 && final(clients).clients@.drop_last() == old(clients).clients@ && final(clients).clients@.last()@
                    == (ClientV {
                    id: adopted,
                    name: new_project@.client.name,
                    contact_person: new_project@.client.contact_person,
                })))
                &&& (r is Err <==> spec_dir_index(old(self).dirs@, eff) >= 0)
                &&& (r matches Err(e) ==> (e matches StoreError::DuplicateName { name } && name@
                    == eff && *final(self) == *old(self)))
                &&& (r matches Ok(out) ==> (out.id@ == decimal_digits(n) && out.folder_name@
                    == eff && final(self).dirs@.len() == old(self).dirs@.len() + 1 && final(self).dirs@.drop_last() == old(self).dirs@ && final(self).dirs@.last()@ == eff && final(self).projects@.len() == old(self).projects@.len() + 1 && final(self).projects@.drop_last() == old(self).projects@ && final(self).projects@.last()@
                    == spec_project_to_row(old(self).projects_root@, p2)))
            }),
    {
        let n = self.new_project_id();
        let nid = render_id(n);
        let mut p = new_project;
        p.id = nid;
        match clients.get(p.client.id.as_str()) {
            None => {
                let ncid = clients.add(p.client.clone());
                p.client.id = ncid;
            },
            Some(_) => {},
        }
        let suffix = get_folder_path_suffix(&p);
        proof {
            lemma_decimal_digits_props(n as int);
        }
        match self.dir_index_of(suffix.as_str()) {
            Some(_) => {
                return Err(StoreError::DuplicateName { name: suffix });
            },
            None => {},
        }
        let row = match convert_project_to_csv(self.projects_root.as_str(), &p) {
            Ok(row) => row,
            Err(e) => {
                proof {
                    assert(false);
                }
                return Err(e);
            },
        };
        self.dirs.push(suffix.clone());
        self.projects.push(row);
        proof {
            assert(final(self).dirs@.drop_last() =~= old(self).dirs@);
            assert(final(self).projects@.drop_last() =~= old(self).projects@);
        }
        Ok(AddOutcome { id: p.id, folder_name: suffix })
    }

    /// Updates the stored project with the updated record's id: refuses a
    /// folder name already taken by another directory, auto-creates an
    /// unknown client, renames the project's directory when the effective
    /// suffix changed, and replaces the row.  With no stored row under
    /// that id the table is left as it was, and the call still succeeds.
    pub fn update(
        &mut self,
        clients: &mut ClientFileRepository,
        updated_project: Project,
    ) -> (r: Result<DirChange, StoreError>)
        ensures
            final(self).project_file_path == old(self).project_file_path,
            final(self).client_file_path == old(self).client_file_path,
            final(self).projects_root == old(self).projects_root,
            ({
                let ns = spec_effective_suffix(updated_project@);
                let pj = spec_project_index(old(self).projects@, updated_project@.id);
                let old_leaf = path_leaf(old(self).projects@[pj]@.folder_path);
                let dup = pj >= 0 && old_leaf != ns && spec_dir_index(old(self).dirs@, ns) >= 0;
                let cj = spec_client_index(old(clients).clients@, updated_project@.client.id);
                let adopted = if cj >= 0 {
                    updated_project@.client.id
                } else {
                    decimal_digits(next_id_val(client_ids(old(clients).clients.deep_view())))
                };
                let p2 = (ProjectV {
                    client: (ClientV { id: adopted, ..updated_project@.client }),
                    ..updated_project@
                });
                let valid = project_valid_for_storage(updated_project@);
                let missing = pj >= 0 && old_leaf != ns && spec_dir_index(
                    old(self).dirs@,
                    old_leaf,
                ) < 0;
                let dj = spec_dir_index(old(self).dirs@, old_leaf);
                &&& (dup ==> ((r matches Err(e) && e matches StoreError::DuplicateName { name }
                    && name@ == ns) && *final(self) == *old(self) && *final(clients) == *old(clients)))
                &&& (!dup ==> (cj >= 0 ==> *final(clients) == *old(clients)))
                &&& (!dup ==> (cj < 0 ==> (final(clients).file_path == old(clients).file_path
                    && final(clients).clients@.len() == old(clients).clients@.len() + 1 && final(clients).clients@.drop_last() == old(clients).clients@ && final(clients).clients@.last()@
                    == (ClientV {
                    id: adopted,
                    name: updated_project@.client.name,
                    contact_person: updated_project@.client.contact_person,
                }))))
                &&& ((!dup && !valid) ==> ((r matches Err(e) && e is Validation) && *final(self)
                    == *old(self)))
                &&& ((!dup && valid && pj < 0) ==> ((r matches Ok(ch) && ch is Kept) && *final(self) == *old(self)))
                &&& ((!dup && valid && missing) ==> ((r matches Err(e) && e is Io) && *final(self)
                    == *old(self)))
                &&& ((!dup && valid && pj >= 0 && !missing) ==> (
                (old_leaf == ns ==> ((r matches Ok(ch) && ch is Kept) && final(self).dirs@ == old(self).dirs@)) && (old_leaf != ns ==> ((r matches Ok(ch) && ch matches
                DirChange::Renamed { old_name, new_name } && old_name@ == old_leaf && new_name@
                    == ns) && final(self).dirs@.len() == old(self).dirs@.len() && (forall|k: int|
                    (0 <= k < old(self).dirs@.len() && k != dj) ==> final(self).dirs@[k] == old(self).dirs@[k]) && final(self).dirs@[dj]@ == ns)) && final(self).projects@.len()
                    == old(self).projects@.len() && (forall|k: int|
                    0 <= k < old(self).projects@.len() ==> (if (#[trigger] old(self).projects@[k])@.id == updated_project@.id {
                        final(self).projects@[k]@ == spec_project_to_row(
                            old(self).projects_root@,
                            p2,
                        )
                    } else {
                        final(self).projects@[k] == old(self).projects@[k]
                    }))))
            }),
    {
        let new_suffix = get_folder_path_suffix(&updated_project);
        let pidx = self.project_index_of(updated_project.id.as_str());
        match pidx {
            Some(i) => {
                let old_leaf = path_leaf_of(self.projects[i].folder_path.as_str());
                if !str_eq(old_leaf.as_str(), new_suffix.as_str()) {
                    match self.dir_index_of(new_suffix.as_str()) {
                        Some(_) => {
                            return Err(StoreError::DuplicateName { name: new_suffix });
                        },
                        None => {},
                    }
                }
            },
            None => {},
        }
        let mut p = updated_project;
        match clients.get(p.client.id.as_str()) {
            None => {
                let ncid = clients.add(p.client.clone());
                p.client.id = ncid;
            },
            Some(_) => {},
        }
        let row = match convert_project_to_csv(self.projects_root.as_str(), &p) {
            Ok(row) => row,
            Err(e) => {
                return Err(e);
            },
        };
        let i = match pidx {
            Some(i) => i,
            None => {
                return Ok(DirChange::Kept);
            },
        };
        let old_leaf = path_leaf_of(self.projects[i].folder_path.as_str());
        let change: DirChange;
        if !str_eq(old_leaf.as_str(), new_suffix.as_str()) {
            let d = match self.dir_index_of(old_leaf.as_str()) {
                Some(d) => d,
                None => {
                    let mut m = String::from_str(
                        "cannot rename the project directory: nothing is named ",
                    );
                    m.append(old_leaf.as_str());
                    return Err(StoreError::Io { message: m });
                },
            };
            let mut new_dirs: Vec<String> = Vec::new();
            let mut k: usize = 0;
            while k < self.dirs.len()
                invariant
                    0 <= k <= self.dirs@.len(),
                    new_dirs@.len() == k,
                    d < self.dirs@.len(),
                    new_suffix@ == spec_effective_suffix(p@),
                    forall|j: int|
                        (0 <= j < k && j != d) ==> new_dirs@[j] == (#[trigger] self.dirs@[j]),
                    d < k ==> new_dirs@[d as int]@ == new_suffix@,
                decreases self.dirs@.len() - k,
            {
                if k == d {
                    new_dirs.push(new_suffix.clone());
                } else {
                    new_dirs.push(self.dirs[k].clone());
                }
                k = k + 1;
            }
            self.dirs = new_dirs;
            change = DirChange::Renamed { old_name: old_leaf, new_name: new_suffix };
        } else {
            change = DirChange::Kept;
        }
        let mut new_rows: Vec<ProjectCSV> = Vec::new();
        let mut k: usize = 0;
        while k < self.projects.len()
            invariant
                0 <= k <= self.projects@.len(),
                new_rows@.len() == k,
                row@ == spec_project_to_row(self.projects_root@, p@),
                forall|j: int|
                    0 <= j < k ==> (if (#[trigger] self.projects@[j])@.id == p@.id {
                        new_rows@[j]@ == row@
                    } else {
                        new_rows@[j] == self.projects@[j]
                    }),
            decreases self.projects@.len() - k,
        {
            if str_eq(self.projects[k].id.as_str(), p.id.as_str()) {
                new_rows.push(row.clone());
            } else {
                new_rows.push(self.projects[k].clone());
            }
            k = k + 1;
        }
        self.projects = new_rows;
        Ok(change)
    }
}

/// Ids assigned by `add` grow strictly: the id assigned over a row table
/// is strictly greater, as a number, than the value of every id already in
/// the table — in particular than every id `add` itself put there — and
/// over an empty table it is `1`.  Once an assigned id is stored, the next
/// assignment is exactly one higher, as long as the table stays within the
/// allocator's range.
pub proof fn lemma_project_ids_grow(ps: Seq<ProjectCSV>)
    ensures
        forall|i: int|
            0 <= i < ps.len() ==> parsed_id(#[trigger] stored_project_ids(ps)[i]) < next_id_val(
                stored_project_ids(ps),
            ),
        ps.len() == 0 ==> next_id_val(stored_project_ids(ps)) == 1,
        forall|row: ProjectCSV|
            (#[trigger] row@.id == decimal_digits(next_id_val(stored_project_ids(ps)))
                && next_id_val(stored_project_ids(ps)) <= MAX_ID) ==> next_id_val(
                stored_project_ids(ps.push(row)),
            ) == next_id_val(stored_project_ids(ps)) + 1,
{
    lemma_next_id_monotonic(stored_project_ids(ps));
    let n = next_id_val(stored_project_ids(ps));
    assert forall|row: ProjectCSV|
        (row@.id == decimal_digits(n) && n <= MAX_ID) implies next_id_val(
        stored_project_ids(ps.push(row)),
    ) == n + 1 by {
        lemma_parsed_rendered_id(n);
        let ids2 = stored_project_ids(ps.push(row));
        assert(ids2.drop_last() =~= stored_project_ids(ps));
        assert(ids2.last() == row@.id);
        lemma_max_id_val_bounds(stored_project_ids(ps));
    }
}

} // verus!
