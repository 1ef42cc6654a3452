//! The domain records: clients, projects, the flat row shape that the
//! project file stores, and the error taxonomy of the stores.

use vstd::prelude::*;

verus! {

/// Progress state of a project; stored as one of the literal tokens
/// `InProgress`, `Completed`, `OnHold`.
#[derive(Clone, Copy, Debug, PartialEq, Eq, Structural)]
pub enum ProjectStatus {
    InProgress,
    Completed,
    OnHold,
}

/// A client record as stored in the client file.
#[derive(Debug, PartialEq)]
pub struct Client {
    pub id: String,
    pub name: String,
    pub contact_person: String,
}

pub ghost struct ClientV {
    pub id: Seq<char>,
    pub name: Seq<char>,
    pub contact_person: Seq<char>,
}

impl View for Client {
    type V = ClientV;

    open spec fn view(&self) -> ClientV {
        ClientV { id: self.id@, name: self.name@, contact_person: self.contact_person@ }
    }
}

impl DeepView for Client {
    type V = ClientV;

    open spec fn deep_view(&self) -> ClientV {
        self@
    }
}

impl Clone for Client {
    fn clone(&self) -> (r: Self)
        ensures
            r == *self,
    {
        Client {
            id: self.id.clone(),
            name: self.name.clone(),
            contact_person: self.contact_person.clone(),
        }
    }
}

/// A project record at the domain level: it carries a full copy of its
/// client, and an optional folder name under the projects root.
#[derive(Debug, PartialEq)]
pub struct Project {
    pub id: String,
    pub title: String,
    pub description: String,
    pub order_date: String,
    pub due_date: String,
    pub completion_date: Option<String>,
    pub client: Client,
    pub status: ProjectStatus,
    pub folder_path_suffix: Option<String>,
}

pub ghost struct ProjectV {
    pub id: Seq<char>,
    pub title: Seq<char>,
    pub description: Seq<char>,
    pub order_date: Seq<char>,
    pub due_date: Seq<char>,
    pub completion_date: Option<Seq<char>>,
    pub client: ClientV,
    pub status: ProjectStatus,
    pub folder_path_suffix: Option<Seq<char>>,
}

impl View for Project {
    type V = ProjectV;

    open spec fn view(&self) -> ProjectV {
        ProjectV {
            id: self.id@,
            title: self.title@,
            description: self.description@,
            order_date: self.order_date@,
            due_date: self.due_date@,
            completion_date: match self.completion_date {
                Some(s) => Some(s@),
                None => None,
            },
            client: self.client@,
            status: self.status,
            folder_path_suffix: match self.folder_path_suffix {
                Some(s) => Some(s@),
                None => None,
            },
        }
    }
}

impl DeepView for Project {
    type V = ProjectV;

    open spec fn deep_view(&self) -> ProjectV {
        self@
    }
}

impl Clone for Project {
    fn clone(&self) -> (r: Self)
        ensures
            r == *self,
    {
        Project {
            id: self.id.clone(),
            title: self.title.clone(),
            description: self.description.clone(),
            order_date: self.order_date.clone(),
            due_date: self.due_date.clone(),
            completion_date: match &self.completion_date {
                Some(s) => Some(s.clone()),
                None => None,
            },
            client: self.client.clone(),
            status: self.status,
            folder_path_suffix: match &self.folder_path_suffix {
                Some(s) => Some(s.clone()),
                None => None,
            },
        }
    }
}

/// A project as one row of the project file: the client appears only by id,
/// and the folder by its full stored path.
#[derive(Debug, PartialEq)]
pub struct ProjectCSV {
    pub id: String,
    pub title: String,
    pub description: String,
    pub order_date: String,
    pub due_date: String,
    pub completion_date: Option<String>,
    pub client_id: String,
    pub status: ProjectStatus,
    pub folder_path: String,
}

pub ghost struct ProjectCsvV {
    pub id: Seq<char>,
    pub title: Seq<char>,
    pub description: Seq<char>,
    pub order_date: Seq<char>,
    pub due_date: Seq<char>,
    pub completion_date: Option<Seq<char>>,
    pub client_id: Seq<char>,
    pub status: ProjectStatus,
    pub folder_path: Seq<char>,
}

impl View for ProjectCSV {
    type V = ProjectCsvV;

    open spec fn view(&self) -> ProjectCsvV {
        ProjectCsvV {
            id: self.id@,
            title: self.title@,
            description: self.description@,
            order_date: self.order_date@,
            due_date: self.due_date@,
            completion_date: match self.completion_date {
                Some(s) => Some(s@),
                None => None,
            },
            client_id: self.client_id@,
            status: self.status,
            folder_path: self.folder_path@,
        }
    }
}

impl DeepView for ProjectCSV {
    type V = ProjectCsvV;

    open spec fn deep_view(&self) -> ProjectCsvV {
        self@
    }
}

impl Clone for ProjectCSV {
    fn clone(&self) -> (r: Self)
        ensures
            r == *self,
    {
        ProjectCSV {
            id: self.id.clone(),
            title: self.title.clone(),
            description: self.description.clone(),
            order_date: self.order_date.clone(),
            due_date: self.due_date.clone(),
            completion_date: match &self.completion_date {
                Some(s) => Some(s.clone()),
                None => None,
            },
            client_id: self.client_id.clone(),
            status: self.status,
            folder_path: self.folder_path.clone(),
        }
    }
}

/// What a store operation can fail with.  The cases are kept apart so a
/// caller can react to each; `message` renders one as text.
#[derive(Debug)]
pub enum StoreError {
    /// A filesystem step failed; the message names the offending path.
    Io { message: String },
    /// A stored row could not be read back as a record.
    Decode { message: String },
    /// A record was handed to storage without the fields storage needs.
    Validation { message: String },
    /// A project row references a client id with no client record.
    ReferentialIntegrity { client_id: String },
    /// A project folder name is already taken.
    DuplicateName { name: String },
}

impl StoreError {
    /// One line of text describing the error.
    pub fn message(&self) -> (r: String)
        ensures
            (self matches StoreError::Io { message } ==> r@ == "I/O failure: "@ + message@),
            (self matches StoreError::Decode { message } ==> r@ == "malformed record: "@
                + message@),
            (self matches StoreError::Validation { message } ==> r@ == "invalid record: "@
                + message@),
            (self matches StoreError::ReferentialIntegrity { client_id } ==> r@
                == "project references a missing client, id="@ + client_id@),
            (self matches StoreError::DuplicateName { name } ==> r@
                == "project name already exists: "@ + name@),
    {
        match self {
            StoreError::Io { message } => {
                let mut s = String::from_str("I/O failure: ");
                s.append(message.as_str());
                s
            },
            StoreError::Decode { message } => {
                let mut s = String::from_str("malformed record: ");
                s.append(message.as_str());
                s
            },
            StoreError::Validation { message } => {
                let mut s = String::from_str("invalid record: ");
                s.append(message.as_str());
                s
            },
            StoreError::ReferentialIntegrity { client_id } => {
                let mut s = String::from_str("project references a missing client, id=");
                s.append(client_id.as_str());
                s
            },
            StoreError::DuplicateName { name } => {
                let mut s = String::from_str("project name already exists: ");
                s.append(name.as_str());
                s
            },
        }
    }
}

} // verus!
