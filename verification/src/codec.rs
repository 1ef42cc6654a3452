//! The record codec: between the domain shape of a project and the flat row
//! the project file stores, and between a status and its stored token.

use vstd::prelude::*;

use crate::model::{Client, Project, ProjectCSV, ProjectStatus, StoreError};
use crate::model::{ClientV, ProjectCsvV, ProjectV};
use crate::paths::{
    get_project_directory_path, joined_path, lemma_leaf_of_joined, path_leaf, path_leaf_of,
};
use crate::text::str_eq;

verus! {

/// The folder name a project's directory carries: the stored suffix when one
/// is present and non-empty, and the project's own id otherwise.
pub open spec fn spec_effective_suffix(p: ProjectV) -> Seq<char> {
    match p.folder_path_suffix {
        Some(s) => if s.len() > 0 {
            s
        } else {
            p.id
        },
        None => p.id,
    }
}

/// A project can be stored only when it determines a non-empty folder name:
/// it carries a non-empty id or a non-empty folder suffix.
pub open spec fn project_valid_for_storage(p: ProjectV) -> bool {
    spec_effective_suffix(p).len() > 0
}

/// The folder name of a project's directory, as the Directory Lifecycle
/// Manager uses it: the registered suffix if any, else the project's id.
pub fn get_folder_path_suffix(project: &Project) -> (r: String)
    ensures
        r@ == spec_effective_suffix(project@),
{
    match &project.folder_path_suffix {
        Some(s) => {
            if s.unicode_len() > 0 {
                s.clone()
            } else {
                project.id.clone()
            }
        },
        None => project.id.clone(),
    }
}

pub open spec fn status_token(s: ProjectStatus) -> Seq<char> {
    match s {
        ProjectStatus::InProgress => "InProgress"@,
        ProjectStatus::Completed => "Completed"@,
        ProjectStatus::OnHold => "OnHold"@,
    }
}

pub open spec fn spec_parse_status(t: Seq<char>) -> Option<ProjectStatus> {
    if t == "InProgress"@ {
        Some(ProjectStatus::InProgress)
    } else if t == "Completed"@ {
        Some(ProjectStatus::Completed)
    } else if t == "OnHold"@ {
        Some(ProjectStatus::OnHold)
    } else {
        None
    }
}

/// The token a status is stored as.
pub fn status_to_string(s: &ProjectStatus) -> (r: String)
    ensures
        r@ == status_token(*s),
{
    match s {
        ProjectStatus::InProgress => String::from_str("InProgress"),
        ProjectStatus::Completed => String::from_str("Completed"),
        ProjectStatus::OnHold => String::from_str("OnHold"),
    }
}

/// Reads a stored status token; anything but the three tokens is refused.
pub fn parse_status(t: &str) -> (r: Option<ProjectStatus>)
    ensures
        r == spec_parse_status(t@),
{
    if str_eq(t, "InProgress") {
        Some(ProjectStatus::InProgress)
    } else if str_eq(t, "Completed") {
        Some(ProjectStatus::Completed)
    } else if str_eq(t, "OnHold") {
        Some(ProjectStatus::OnHold)
    } else {
        None
    }
}

/// An optional field as stored: absence is the empty field.
pub open spec fn opt_field(o: Option<Seq<char>>) -> Seq<char> {
    match o {
        Some(s) => s,
        None => Seq::empty(),
    }
}

/// The nine fields a project row is stored as, in file order.
pub open spec fn spec_row_fields(row: ProjectCsvV) -> Seq<Seq<char>> {
    seq![
        row.id,
        row.title,
        row.description,
        row.order_date,
        row.due_date,
        opt_field(row.completion_date),
        row.client_id,
        status_token(row.status),
        row.folder_path,
    ]
}

/// The project row a nine-field record stands for; an empty completion
/// field reads back as absence.  Meaningful only where the status token is
/// recognised.
pub open spec fn spec_row_of_fields(f: Seq<Seq<char>>) -> ProjectCsvV {
    ProjectCsvV {
        id: f[0],
        title: f[1],
        description: f[2],
        order_date: f[3],
        due_date: f[4],
        completion_date: if f[5].len() == 0 {
            None
        } else {
            Some(f[5])
        },
        client_id: f[6],
        status: match spec_parse_status(f[7]) {
            Some(s) => s,
            None => ProjectStatus::InProgress,
        },
        folder_path: f[8],
    }
}

/// A status token always reads back as the status it was written for.
pub proof fn lemma_status_token_round_trip(s: ProjectStatus)
    ensures
        spec_parse_status(status_token(s)) == Some(s),
{
    reveal_strlit("InProgress");
    reveal_strlit("Completed");
    reveal_strlit("OnHold");
    assert("InProgress"@.len() == 10);
    assert("Completed"@.len() == 9);
    assert("OnHold"@.len() == 6);
}

/// A stored project row reads back as itself, field for field, as long as
/// its completion date is not present but empty (an empty field is read
/// back as absence).
pub proof fn lemma_row_fields_round_trip(row: ProjectCsvV)
    requires
        (row.completion_date matches Some(s) ==> s.len() > 0),
    ensures
        spec_row_fields(row).len() == 9,
        spec_parse_status(spec_row_fields(row)[7]) is Some,
        spec_row_of_fields(spec_row_fields(row)) == row,
{
    lemma_status_token_round_trip(row.status);
    let f = spec_row_fields(row);
    assert(f[0] == row.id);
    assert(f[1] == row.title);
    assert(f[2] == row.description);
    assert(f[3] == row.order_date);
    assert(f[4] == row.due_date);
    assert(f[5] == opt_field(row.completion_date));
    assert(f[6] == row.client_id);
    assert(f[7] == status_token(row.status));
    assert(f[8] == row.folder_path);
    match row.completion_date {
        Some(s) => {
            assert(spec_row_of_fields(f).completion_date == Some(s));
        },
        None => {
            assert(spec_row_of_fields(f).completion_date == None::<Seq<char>>);
        },
    }
}

/// The row a project is stored as: the client replaced by its id, the folder
/// by its full path under `root`.
pub open spec fn spec_project_to_row(root: Seq<char>, p: ProjectV) -> ProjectCsvV {
    ProjectCsvV {
        id: p.id,
        title: p.title,
        description: p.description,
        order_date: p.order_date,
        due_date: p.due_date,
        completion_date: p.completion_date,
        client_id: p.client.id,
        status: p.status,
        folder_path: joined_path(root, spec_effective_suffix(p)),
    }
}

/// The project a stored row stands for, once its client has been resolved:
/// the folder suffix is read back as the stored path's leaf name.
pub open spec fn spec_row_to_project(row: ProjectCsvV, client: ClientV) -> ProjectV {
    ProjectV {
        id: row.id,
        title: row.title,
        description: row.description,
        order_date: row.order_date,
        due_date: row.due_date,
        completion_date: row.completion_date,
        client: client,
        status: row.status,
        folder_path_suffix: Some(path_leaf(row.folder_path)),
    }
}

/// Encodes a project for storage.  Fails with a validation error exactly
/// when the project has neither a non-empty id nor a non-empty folder
/// suffix.
pub fn convert_project_to_csv(projects_root: &str, project: &Project) -> (r: Result<
    ProjectCSV,
    StoreError,
>)
    ensures
        project_valid_for_storage(project@) <==> r is Ok,
        r matches Ok(row) ==> row@ == spec_project_to_row(projects_root@, project@),
        r matches Err(e) ==> e is Validation,
{
    let suffix = get_folder_path_suffix(project);
    if suffix.unicode_len() == 0 {
        return Err(
            StoreError::Validation { message: String::from_str("a project must carry an id or a folder suffix before it can be stored") },
        );
    }
    let folder_path = get_project_directory_path(projects_root, suffix.as_str());
    Ok(
        ProjectCSV {
            id: project.id.clone(),
            title: project.title.clone(),
            description: project.description.clone(),
            order_date: project.order_date.clone(),
            due_date: project.due_date.clone(),
            completion_date: match &project.completion_date {
                Some(s) => Some(s.clone()),
                None => None,
            },
            client_id: project.client.id.clone(),
            status: project.status,
            folder_path,
        },
    )
}

/// Reads a stored row back as a project, attaching the already resolved
/// client record.
pub fn convert_csv_to_project(csv: &ProjectCSV, client: Client) -> (r: Project)
    ensures
        r@ == spec_row_to_project(csv@, client@),
{
    let folder_path_suffix = path_leaf_of(csv.folder_path.as_str());
    Project {
        id: csv.id.clone(),
        title: csv.title.clone(),
        description: csv.description.clone(),
        order_date: csv.order_date.clone(),
        due_date: csv.due_date.clone(),
        completion_date: match &csv.completion_date {
            Some(s) => Some(s.clone()),
            None => None,
        },
        client,
        status: csv.status,
        folder_path_suffix: Some(folder_path_suffix),
    }
}

/// Encoding a storable project as a row and reading the row back, with the
/// project's own client, gives the project back, except that the folder
/// suffix is normalised to the stored path's leaf name.  When the effective
/// suffix holds no separator, that leaf is the effective suffix itself; a
/// project that already carried that suffix comes back unchanged.
pub proof fn lemma_project_row_round_trip(root: Seq<char>, p: ProjectV)
    requires
        project_valid_for_storage(p),
    ensures
        spec_row_to_project(spec_project_to_row(root, p), p.client) == (ProjectV {
            folder_path_suffix: Some(path_leaf(joined_path(root, spec_effective_suffix(p)))),
            ..p
        }),
        (forall|i: int|
            0 <= i < spec_effective_suffix(p).len() ==> spec_effective_suffix(p)[i] != '/')
            ==> spec_row_to_project(spec_project_to_row(root, p), p.client) == (ProjectV {
            folder_path_suffix: Some(spec_effective_suffix(p)),
            ..p
        }),
        ((p.folder_path_suffix == Some(spec_effective_suffix(p)) && forall|i: int|
            0 <= i < spec_effective_suffix(p).len() ==> spec_effective_suffix(p)[i] != '/')
            ==> spec_row_to_project(spec_project_to_row(root, p), p.client) == p),
{
    let eff = spec_effective_suffix(p);
    if forall|i: int| 0 <= i < eff.len() ==> eff[i] != '/' {
        lemma_leaf_of_joined(root, eff);
    }
}

} // verus!
