//! The record shape the user interface exchanges with the stores: a
//! project that additionally carries the computed absolute folder path for
//! display.

use vstd::prelude::*;

use crate::codec::spec_effective_suffix;
use crate::model::{Client, ClientV, Project, ProjectStatus, ProjectV};
use crate::paths::{get_project_directory_path, joined_path};

verus! {

/// A project as the user interface sees it.
#[derive(Debug, PartialEq)]
pub struct ProjectFrontEnd {
    pub id: String,
    pub title: String,
    pub description: String,
    pub order_date: String,
    pub due_date: String,
    pub completion_date: Option<String>,
    pub client: Client,
    pub status: ProjectStatus,
    /// The project directory's full path, for display only.
    pub folder_path: Option<String>,
    pub folder_path_suffix: Option<String>,
}

pub ghost struct ProjectFrontEndV {
    pub id: Seq<char>,
    pub title: Seq<char>,
    pub description: Seq<char>,
    pub order_date: Seq<char>,
    pub due_date: Seq<char>,
    pub completion_date: Option<Seq<char>>,
    pub client: ClientV,
    pub status: ProjectStatus,
    pub folder_path: Option<Seq<char>>,
    pub folder_path_suffix: Option<Seq<char>>,
}

impl View for ProjectFrontEnd {
    type V = ProjectFrontEndV;

    open spec fn view(&self) -> ProjectFrontEndV {
        ProjectFrontEndV {
            id: self.id@,
            title: self.title@,
            description: self.description@,
            order_date: self.order_date@,
            due_date: self.due_date@,
            completion_date: match self.completion_date {
                Some(s) => Some(s@),
                None => None,
            },
            client: self.client@,
            status: self.status,
            folder_path: match self.folder_path {
                Some(s) => Some(s@),
                None => None,
            },
            folder_path_suffix: match self.folder_path_suffix {
                Some(s) => Some(s@),
                None => None,
            },
        }
    }
}

/// The domain record behind an interface record: the display path is
/// dropped, every other field is carried over.
pub fn convert_ifrontend_to_project(input: ProjectFrontEnd) -> (r: Project)
    ensures
        r@ == (ProjectV {
            id: input@.id,
            title: input@.title,
            description: input@.description,
            order_date: input@.order_date,
            due_date: input@.due_date,
            completion_date: input@.completion_date,
            client: input@.client,
            status: input@.status,
            folder_path_suffix: input@.folder_path_suffix,
        }),
{
    Project {
        id: input.id,
        title: input.title,
        description: input.description,
        order_date: input.order_date,
        due_date: input.due_date,
        completion_date: input.completion_date,
        client: input.client,
        status: input.status,
        folder_path_suffix: input.folder_path_suffix,
    }
}

/// The interface record for a domain record: every field is carried over,
/// and the display path is computed from the projects root and the
/// project's effective folder name.
pub fn convert_project_to_frontend(projects_root: &str, input: Project) -> (r: ProjectFrontEnd)
    ensures
        r@ == (ProjectFrontEndV {
            id: input@.id,
            title: input@.title,
            description: input@.description,
            order_date: input@.order_date,
            due_date: input@.due_date,
            completion_date: input@.completion_date,
            client: input@.client,
            status: input@.status,
            folder_path: Some(joined_path(projects_root@, spec_effective_suffix(input@))),
            folder_path_suffix: input@.folder_path_suffix,
        }),
{
    let suffix = crate::codec::get_folder_path_suffix(&input);
    let folder_path = Some(get_project_directory_path(projects_root, suffix.as_str()));
    ProjectFrontEnd {
        id: input.id,
        title: input.title,
        description: input.description,
        order_date: input.order_date,
        due_date: input.due_date,
        completion_date: input.completion_date,
        client: input.client,
        status: input.status,
        folder_path,
        folder_path_suffix: input.folder_path_suffix,
    }
}

} // verus!
