use project_tracker::client_store::ClientFileRepository;
use project_tracker::csvio::{decode_client_file, encode_client_file};
use project_tracker::model::{Client, Project, ProjectStatus, StoreError};
use project_tracker::project_store::{DirChange, ProjectFileRepository};

fn client(id: &str, name: &str) -> Client {
    Client { id: id.to_string(), name: name.to_string(), contact_person: "Jo".to_string() }
}

fn project(id: &str, suffix: Option<&str>, client_id: &str) -> Project {
    Project {
        id: id.to_string(),
        title: "Site".to_string(),
        description: "A web site".to_string(),
        order_date: "2024-01-02".to_string(),
        due_date: "2024-03-04".to_string(),
        completion_date: None,
        client: client(client_id, "Acme"),
        status: ProjectStatus::InProgress,
        folder_path_suffix: suffix.map(|s| s.to_string()),
    }
}

fn loaded_stores() -> (ProjectFileRepository, ClientFileRepository) {
    let mut clients = ClientFileRepository::new("files/clients.csv");
    clients.clients = vec![client("1", "Acme")];
    let mut projects = ProjectFileRepository::new("files/projects.csv", "files/clients.csv", "project");
    let row = project_tracker::codec::convert_project_to_csv(
        "project",
        &project("1", Some("alpha"), "1"),
    )
    .unwrap();
    projects.projects = vec![row];
    projects.dirs = vec!["alpha".to_string()];
    (projects, clients)
}

#[test]
fn ids_grow_strictly_and_start_at_one() {
    let mut repo = ClientFileRepository::new("files/clients.csv");
    let first = repo.add(client("", "Acme"));
    let second = repo.add(client("", "Globex"));
    let third = repo.add(client("", "Initech"));
    assert_eq!((first.as_str(), second.as_str(), third.as_str()), ("1", "2", "3"));

    let mut repo = ClientFileRepository::new("files/clients.csv");
    repo.clients = vec![client("7", "Acme"), client("junk", "Globex"), client("3", "Initech")];
    assert_eq!(repo.new_client_id(), 8);
    assert_eq!(repo.add(client("", "Hooli")), "8");
    assert_eq!(repo.new_client_id(), 9);
}

#[test]
fn get_returns_the_first_match_and_no_match_is_not_an_error() {
    let mut repo = ClientFileRepository::new("files/clients.csv");
    repo.clients = vec![client("1", "Acme"), client("2", "Globex"), client("2", "Shadow")];
    assert_eq!(repo.get("2").unwrap().name, "Globex");
    assert!(repo.get("9").is_none());
}

#[test]
fn update_replaces_the_matching_row_and_tolerates_no_match() {
    let mut repo = ClientFileRepository::new("files/clients.csv");
    repo.clients = vec![client("1", "Acme"), client("2", "Globex")];
    repo.update(client("2", "Globex Two"));
    assert_eq!(repo.clients[1].name, "Globex Two");
    assert_eq!(repo.clients[0].name, "Acme");

    let before = repo.fetch();
    repo.update(client("9", "Nobody"));
    assert_eq!(repo.fetch(), before);
}

#[test]
fn adding_a_client_to_an_empty_file_writes_one_row_with_id_one() {
    let mut repo = ClientFileRepository::new("files/clients.csv");
    let id = repo.add(Client {
        id: "".to_string(),
        name: "Acme".to_string(),
        contact_person: "Jo".to_string(),
    });
    assert_eq!(id, "1");
    let bytes = encode_client_file(&repo.clients);
    let rows = decode_client_file(&bytes).unwrap();
    assert_eq!(rows.len(), 1);
    assert_eq!(rows[0].id, "1");
}

#[test]
fn fetch_resolves_every_row_through_the_client_store() {
    let (projects, clients) = loaded_stores();
    let list = projects.fetch(&clients).unwrap();
    assert_eq!(list.len(), 1);
    assert_eq!(list[0].id, "1");
    assert_eq!(list[0].client, client("1", "Acme"));
    assert_eq!(list[0].folder_path_suffix, Some("alpha".to_string()));
}

#[test]
fn a_row_with_an_unknown_client_fails_the_whole_fetch() {
    let (mut projects, clients) = loaded_stores();
    projects.projects[0].client_id = "9".to_string();
    let e = projects.fetch(&clients).unwrap_err();
    match e {
        StoreError::ReferentialIntegrity { client_id } => assert_eq!(client_id, "9"),
        other => panic!("expected a referential integrity error, got {:?}", other),
    }
    assert!(projects.get(&clients, "1").is_err());
}

#[test]
fn add_assigns_the_next_id_and_registers_the_directory() {
    let (mut projects, mut clients) = loaded_stores();
    let out = projects.add(&mut clients, project("", None, "1")).unwrap();
    assert_eq!(out.id, "2");
    assert_eq!(out.folder_name, "2");
    assert_eq!(projects.projects.len(), 2);
    assert_eq!(projects.projects[1].folder_path, "project/2");
    assert_eq!(projects.dirs, vec!["alpha".to_string(), "2".to_string()]);
    assert_eq!(clients.clients.len(), 1);
}

#[test]
fn add_auto_creates_an_unknown_client() {
    let mut clients = ClientFileRepository::new("files/clients.csv");
    let mut projects =
        ProjectFileRepository::new("files/projects.csv", "files/clients.csv", "project");
    let out = projects.add(&mut clients, project("", None, "")).unwrap();
    assert_eq!(out.id, "1");
    assert_eq!(out.folder_name, "1");
    assert_eq!(clients.clients.len(), 1);
    assert_eq!(clients.clients[0].id, "1");
    assert_eq!(projects.projects[0].client_id, "1");
}

#[test]
fn a_taken_folder_name_refuses_the_add_and_leaves_the_store_alone() {
    let (mut projects, mut clients) = loaded_stores();
    let before_rows = projects.projects.len();
    let before_dirs = projects.dirs.clone();
    let e = projects.add(&mut clients, project("", Some("alpha"), "1")).unwrap_err();
    match e {
        StoreError::DuplicateName { name } => assert_eq!(name, "alpha"),
        other => panic!("expected a duplicate name error, got {:?}", other),
    }
    assert_eq!(projects.projects.len(), before_rows);
    assert_eq!(projects.dirs, before_dirs);
}

#[test]
fn update_renames_the_directory_when_the_suffix_changes() {
    let (mut projects, mut clients) = loaded_stores();
    let change = projects.update(&mut clients, project("1", Some("beta"), "1")).unwrap();
    match change {
        DirChange::Renamed { old_name, new_name } => {
            assert_eq!(old_name, "alpha");
            assert_eq!(new_name, "beta");
        },
        other => panic!("expected a rename, got {:?}", other),
    }
    assert_eq!(projects.dirs, vec!["beta".to_string()]);
    assert_eq!(projects.projects[0].folder_path, "project/beta");
    assert!(projects.projects[0].folder_path.ends_with("beta"));
}

#[test]
fn update_keeps_the_directory_when_the_suffix_stays() {
    let (mut projects, mut clients) = loaded_stores();
    let mut p = project("1", Some("alpha"), "1");
    p.title = "Site v2".to_string();
    let change = projects.update(&mut clients, p).unwrap();
    assert!(matches!(change, DirChange::Kept));
    assert_eq!(projects.dirs, vec!["alpha".to_string()]);
    assert_eq!(projects.projects[0].title, "Site v2");
}

#[test]
fn update_to_a_taken_name_is_refused_before_anything_changes() {
    let (mut projects, mut clients) = loaded_stores();
    projects.dirs.push("beta".to_string());
    let before = projects.projects[0].clone();
    let e = projects.update(&mut clients, project("1", Some("beta"), "1")).unwrap_err();
    assert!(matches!(e, StoreError::DuplicateName { .. }));
    assert_eq!(projects.projects[0], before);
    assert_eq!(projects.dirs, vec!["alpha".to_string(), "beta".to_string()]);
}

#[test]
fn update_with_an_unknown_id_changes_nothing_and_succeeds() {
    let (mut projects, mut clients) = loaded_stores();
    let before = projects.projects[0].clone();
    let change = projects.update(&mut clients, project("9", Some("gamma"), "1")).unwrap();
    assert!(matches!(change, DirChange::Kept));
    assert_eq!(projects.projects.len(), 1);
    assert_eq!(projects.projects[0], before);
}

#[test]
fn update_without_a_source_directory_is_an_io_error() {
    let (mut projects, mut clients) = loaded_stores();
    projects.dirs.clear();
    let e = projects.update(&mut clients, project("1", Some("beta"), "1")).unwrap_err();
    assert!(matches!(e, StoreError::Io { .. }));
    assert_eq!(projects.projects[0].folder_path, "project/alpha");
}

#[test]
fn update_refuses_a_project_that_cannot_be_stored() {
    let (mut projects, mut clients) = loaded_stores();
    let e = projects.update(&mut clients, project("", None, "1")).unwrap_err();
    assert!(matches!(e, StoreError::Validation { .. }));
}

#[test]
fn project_ids_grow_across_adds() {
    let mut clients = ClientFileRepository::new("files/clients.csv");
    let mut projects =
        ProjectFileRepository::new("files/projects.csv", "files/clients.csv", "project");
    let a = projects.add(&mut clients, project("", None, "")).unwrap();
    let b = projects.add(&mut clients, project("", None, "1")).unwrap();
    let c = projects.add(&mut clients, project("", None, "1")).unwrap();
    assert_eq!((a.id.as_str(), b.id.as_str(), c.id.as_str()), ("1", "2", "3"));
    assert_eq!(projects.new_project_id(), 4);
}
