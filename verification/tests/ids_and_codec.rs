use project_tracker::codec::{
    convert_csv_to_project, convert_project_to_csv, get_folder_path_suffix, parse_status,
    status_to_string,
};
use project_tracker::ids::{parse_id, render_id};
use project_tracker::model::{Client, Project, ProjectCSV, ProjectStatus, StoreError};
use project_tracker::paths::{get_project_directory_path, project_tree_paths, sibling_path};

fn sample_client(id: &str) -> Client {
    Client { id: id.to_string(), name: "Acme".to_string(), contact_person: "Jo".to_string() }
}

fn sample_project(id: &str, suffix: Option<&str>) -> Project {
    Project {
        id: id.to_string(),
        title: "Site".to_string(),
        description: "A web site".to_string(),
        order_date: "2024-01-02".to_string(),
        due_date: "2024-03-04".to_string(),
        completion_date: None,
        client: sample_client("1"),
        status: ProjectStatus::InProgress,
        folder_path_suffix: suffix.map(|s| s.to_string()),
    }
}

#[test]
fn parse_id_reads_plain_decimals() {
    assert_eq!(parse_id("42"), 42);
    assert_eq!(parse_id("1"), 1);
    assert_eq!(parse_id("007"), 7);
    assert_eq!(parse_id("2147483647"), 2147483647);
}

#[test]
fn parse_id_treats_everything_else_as_zero() {
    assert_eq!(parse_id(""), 0);
    assert_eq!(parse_id("abc"), 0);
    assert_eq!(parse_id("12a"), 0);
    assert_eq!(parse_id("-3"), 0);
    assert_eq!(parse_id("+3"), 0);
    assert_eq!(parse_id("2147483648"), 0);
    assert_eq!(parse_id("99999999999999999999"), 0);
}

#[test]
fn render_id_writes_decimals() {
    assert_eq!(render_id(1), "1");
    assert_eq!(render_id(10), "10");
    assert_eq!(render_id(2048), "2048");
    assert_eq!(parse_id(&render_id(2147483647)), 2147483647);
}

#[test]
fn status_tokens_round_trip() {
    for s in [ProjectStatus::InProgress, ProjectStatus::Completed, ProjectStatus::OnHold] {
        let token = status_to_string(&s);
        assert_eq!(parse_status(&token), Some(s));
    }
    assert_eq!(status_to_string(&ProjectStatus::InProgress), "InProgress");
    assert_eq!(status_to_string(&ProjectStatus::Completed), "Completed");
    assert_eq!(status_to_string(&ProjectStatus::OnHold), "OnHold");
    assert_eq!(parse_status("Done"), None);
    assert_eq!(parse_status(""), None);
}

#[test]
fn directory_paths_join_root_and_name() {
    assert_eq!(get_project_directory_path("project", "alpha"), "project/alpha");
    let subdirs = project_tree_paths("project/alpha");
    assert_eq!(
        subdirs,
        vec![
            "project/alpha/documents".to_string(),
            "project/alpha/deliverables".to_string(),
            "project/alpha/works".to_string(),
        ]
    );
    assert_eq!(sibling_path("project/alpha", "beta"), "project/beta");
}

#[test]
fn effective_suffix_prefers_a_non_empty_suffix() {
    assert_eq!(get_folder_path_suffix(&sample_project("9", Some("alpha"))), "alpha");
    assert_eq!(get_folder_path_suffix(&sample_project("9", None)), "9");
    assert_eq!(get_folder_path_suffix(&sample_project("9", Some(""))), "9");
}

#[test]
fn project_encodes_to_a_row_with_the_resolved_folder_path() {
    let p = sample_project("3", Some("alpha"));
    let row = convert_project_to_csv("project", &p).unwrap();
    assert_eq!(row.id, "3");
    assert_eq!(row.title, "Site");
    assert_eq!(row.client_id, "1");
    assert_eq!(row.status, ProjectStatus::InProgress);
    assert_eq!(row.folder_path, "project/alpha");

    let defaulted = convert_project_to_csv("project", &sample_project("3", None)).unwrap();
    assert_eq!(defaulted.folder_path, "project/3");
}

#[test]
fn project_without_id_or_suffix_is_refused() {
    let p = sample_project("", None);
    let e = convert_project_to_csv("project", &p).unwrap_err();
    assert!(matches!(e, StoreError::Validation { .. }));
    let p = sample_project("", Some(""));
    let e = convert_project_to_csv("project", &p).unwrap_err();
    assert!(matches!(e, StoreError::Validation { .. }));
}

#[test]
fn row_decodes_back_to_the_project_with_the_leaf_as_suffix() {
    let p = sample_project("3", Some("alpha"));
    let row = convert_project_to_csv("project", &p).unwrap();
    let back = convert_csv_to_project(&row, sample_client("1"));
    assert_eq!(back, sample_project("3", Some("alpha")));
}

#[test]
fn decoding_normalises_the_suffix_to_the_leaf_name() {
    let row = ProjectCSV {
        id: "3".to_string(),
        title: "Site".to_string(),
        description: "A web site".to_string(),
        order_date: "2024-01-02".to_string(),
        due_date: "2024-03-04".to_string(),
        completion_date: Some("2024-05-06".to_string()),
        client_id: "1".to_string(),
        status: ProjectStatus::Completed,
        folder_path: "base/project/alpha".to_string(),
    };
    let back = convert_csv_to_project(&row, sample_client("1"));
    assert_eq!(back.folder_path_suffix, Some("alpha".to_string()));
    assert_eq!(back.completion_date, Some("2024-05-06".to_string()));
    assert_eq!(back.status, ProjectStatus::Completed);
}

#[test]
fn error_messages_name_their_case() {
    let e = StoreError::ReferentialIntegrity { client_id: "9".to_string() };
    assert_eq!(e.message(), "project references a missing client, id=9");
    let e = StoreError::DuplicateName { name: "alpha".to_string() };
    assert_eq!(e.message(), "project name already exists: alpha");
}
