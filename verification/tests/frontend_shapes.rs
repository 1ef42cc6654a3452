use project_tracker::frontend::{
    convert_ifrontend_to_project, convert_project_to_frontend, ProjectFrontEnd,
};
use project_tracker::model::{Client, Project, ProjectStatus};

fn sample_project(suffix: Option<&str>) -> Project {
    Project {
        id: "5".to_string(),
        title: "Site".to_string(),
        description: "A web site".to_string(),
        order_date: "2024-01-02".to_string(),
        due_date: "2024-03-04".to_string(),
        completion_date: Some("2024-05-06".to_string()),
        client: Client {
            id: "1".to_string(),
            name: "Acme".to_string(),
            contact_person: "Jo".to_string(),
        },
        status: ProjectStatus::Completed,
        folder_path_suffix: suffix.map(|s| s.to_string()),
    }
}

#[test]
fn the_interface_record_carries_the_computed_folder_path() {
    let f = convert_project_to_frontend("project", sample_project(Some("alpha")));
    assert_eq!(f.folder_path, Some("project/alpha".to_string()));
    assert_eq!(f.folder_path_suffix, Some("alpha".to_string()));
    assert_eq!(f.id, "5");
    assert_eq!(f.client.name, "Acme");

    let f = convert_project_to_frontend("project", sample_project(None));
    assert_eq!(f.folder_path, Some("project/5".to_string()));
    assert_eq!(f.folder_path_suffix, None);
}

#[test]
fn the_domain_record_drops_the_display_path() {
    let f = ProjectFrontEnd {
        id: "5".to_string(),
        title: "Site".to_string(),
        description: "A web site".to_string(),
        order_date: "2024-01-02".to_string(),
        due_date: "2024-03-04".to_string(),
        completion_date: Some("2024-05-06".to_string()),
        client: Client {
            id: "1".to_string(),
            name: "Acme".to_string(),
            contact_person: "Jo".to_string(),
        },
        status: ProjectStatus::Completed,
        folder_path: Some("somewhere/else".to_string()),
        folder_path_suffix: Some("alpha".to_string()),
    };
    let p = convert_ifrontend_to_project(f);
    assert_eq!(p, sample_project(Some("alpha")));
}

#[test]
fn interface_and_domain_records_round_trip() {
    let p = sample_project(Some("alpha"));
    let back = convert_ifrontend_to_project(convert_project_to_frontend("project", p.clone()));
    assert_eq!(back, p);
}
