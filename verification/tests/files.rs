use project_tracker::csvio::{
    client_file_header, client_file_header_ok, decode_client_file, decode_project_file,
    encode_client_file, encode_project_file, project_file_header, project_file_header_ok,
};
use project_tracker::model::{Client, ProjectCSV, ProjectStatus, StoreError};

fn client(id: &str, name: &str, contact: &str) -> Client {
    Client { id: id.to_string(), name: name.to_string(), contact_person: contact.to_string() }
}

fn row(id: &str, suffix: &str) -> ProjectCSV {
    ProjectCSV {
        id: id.to_string(),
        title: "Site".to_string(),
        description: "A web site".to_string(),
        order_date: "2024-01-02".to_string(),
        due_date: "2024-03-04".to_string(),
        completion_date: None,
        client_id: "1".to_string(),
        status: ProjectStatus::InProgress,
        folder_path: format!("project/{}", suffix),
    }
}

#[test]
fn client_file_bytes_are_header_plus_rows() {
    let bytes = encode_client_file(&vec![client("1", "Acme", "Jo")]);
    assert_eq!(bytes, b"id,name,contact_person\n1,Acme,Jo\n".to_vec());
    let empty = encode_client_file(&vec![]);
    assert_eq!(empty, b"id,name,contact_person\n".to_vec());
}

#[test]
fn client_file_round_trips_through_the_csv_crate() {
    let clients = vec![
        client("1", "Acme", "Jo"),
        client("2", "Comma, Inc.", "Li \"The Quote\" N"),
        client("3", "", ""),
    ];
    let bytes = encode_client_file(&clients);
    let back = decode_client_file(&bytes).unwrap();
    assert_eq!(back, clients);
}

#[test]
fn project_file_round_trips_through_the_csv_crate() {
    let mut second = row("2", "beta");
    second.completion_date = Some("2024-09-09".to_string());
    second.status = ProjectStatus::Completed;
    let rows = vec![row("1", "alpha"), second];
    let bytes = encode_project_file(&rows);
    let back = decode_project_file(&bytes).unwrap();
    assert_eq!(back, rows);
    assert!(bytes.starts_with(
        b"id,title,description,order_date,due_date,completion_date,client_id,status,folder_path\n"
    ));
}

#[test]
fn empty_input_decodes_to_no_records() {
    assert_eq!(decode_client_file(b"").unwrap(), vec![]);
    assert_eq!(decode_project_file(b"").unwrap(), vec![]);
}

#[test]
fn malformed_csv_is_a_decode_error() {
    let e = decode_client_file(b"id,name,contact_person\n\"unclosed\n").unwrap_err();
    assert!(matches!(e, StoreError::Decode { .. }));
}

#[test]
fn a_ragged_row_is_a_decode_error() {
    let e = decode_client_file(b"id,name,contact_person\n1,Acme\n").unwrap_err();
    assert!(matches!(e, StoreError::Decode { .. }));
}

#[test]
fn an_unknown_status_token_is_a_decode_error() {
    let bytes = b"id,title,description,order_date,due_date,completion_date,client_id,status,folder_path\n1,t,d,o,u,,1,Paused,project/1\n";
    let e = decode_project_file(bytes).unwrap_err();
    assert!(matches!(e, StoreError::Decode { .. }));
}

#[test]
fn an_empty_completion_field_reads_back_as_absent() {
    let bytes = b"id,title,description,order_date,due_date,completion_date,client_id,status,folder_path\n1,t,d,o,u,,1,OnHold,project/1\n";
    let rows = decode_project_file(bytes).unwrap();
    assert_eq!(rows.len(), 1);
    assert_eq!(rows[0].completion_date, None);
    assert_eq!(rows[0].status, ProjectStatus::OnHold);
}

#[test]
fn headers_are_checked_word_for_word() {
    assert_eq!(
        client_file_header(),
        vec!["id".to_string(), "name".to_string(), "contact_person".to_string()]
    );
    assert_eq!(project_file_header().len(), 9);
    assert!(client_file_header_ok(b"id,name,contact_person\n"));
    assert!(client_file_header_ok(b"id,name,contact_person\n1,Acme,Jo\n"));
    assert!(!client_file_header_ok(b"id,name,contact\n"));
    assert!(!client_file_header_ok(b""));
    assert!(project_file_header_ok(
        b"id,title,description,order_date,due_date,completion_date,client_id,status,folder_path\n"
    ));
    assert!(!project_file_header_ok(b"id,name,contact_person\n"));
}

#[test]
fn windows_line_endings_decode_too() {
    let rows = decode_client_file(b"id,name,contact_person\r\n1,Acme,Jo\r\n").unwrap();
    assert_eq!(rows, vec![client("1", "Acme", "Jo")]);
}

#[test]
fn fields_with_newlines_and_unicode_round_trip() {
    let clients = vec![
        client("1", "Two\nLines", "Jo"),
        client("2", "日本語の名前", "担当者"),
    ];
    let bytes = encode_client_file(&clients);
    let back = decode_client_file(&bytes).unwrap();
    assert_eq!(back, clients);
}
