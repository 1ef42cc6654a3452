//! The flat-file layer: between whole files as bytes and the records they
//! hold.
//!
//! The CSV text format itself (field quoting, record separation) is the csv
//! crate's work and stays behind two trusted wrappers; everything above the
//! record level — headers, field counts, field meanings — is this module's
//! own, verified logic.

use vstd::prelude::*;

use crate::codec::{parse_status, spec_parse_status, spec_row_of_fields, spec_row_fields,
    status_to_string, status_token};
use crate::model::{Client, ClientV, ProjectCSV, ProjectCsvV, StoreError};
use crate::text::str_eq;

verus! {

/// What the csv crate reads out of the given bytes: the records in file
/// order, or nothing when the bytes are not a well-formed CSV file (a bad
/// quote, a record with a deviating field count, text that is not UTF-8).
pub uninterp spec fn csv_parsed(bytes: Seq<u8>) -> Option<Seq<Seq<Seq<char>>>>;

/// The CSV line the csv crate writes for one record.
pub uninterp spec fn csv_record_encoded(fields: Seq<Seq<char>>) -> Seq<u8>;

/// Relies on csv::Reader with headers off and strict field counts: the
/// records read are a function of the input bytes alone, and any error
/// while reading refuses the whole input.
#[verifier::external_body]
fn csv_parse_bytes(bytes: &[u8]) -> (r: Option<Vec<Vec<String>>>)
    ensures
        r is Some <==> csv_parsed(bytes@) is Some,
        (r matches Some(rows) ==> Some(rows.deep_view()) == csv_parsed(bytes@)),
{
    let mut rdr = csv::ReaderBuilder::new().has_headers(false).from_reader(bytes);
    let mut rows: Vec<Vec<String>> = Vec::new();
    for rec in rdr.records() {
        match rec {
            Ok(r) => rows.push(r.iter().map(|f| f.to_string()).collect()),
            Err(_) => return None,
        }
    }
    Some(rows)
}

/// Relies on csv::Writer::write_record: one record becomes one line, fields
/// separated by commas, quoted as needed, closed by a line terminator; the
/// bytes are a function of the fields alone.  Writing into a byte buffer
/// cannot fail.
#[verifier::external_body]
fn csv_encode_record(fields: &Vec<String>) -> (r: Vec<u8>)
    ensures
        r@ == csv_record_encoded(fields.deep_view()),
{
    let mut wtr = csv::Writer::from_writer(Vec::new());
    wtr.write_record(fields).expect("writing a record into a buffer");
    wtr.into_inner().expect("flushing a buffer")
}

/// The header row of the client file.
pub open spec fn spec_client_header() -> Seq<Seq<char>> {
    seq!["id"@, "name"@, "contact_person"@]
}

/// The header row of the project file.
pub open spec fn spec_project_header() -> Seq<Seq<char>> {
    seq![
        "id"@,
        "title"@,
        "description"@,
        "order_date"@,
        "due_date"@,
        "completion_date"@,
        "client_id"@,
        "status"@,
        "folder_path"@,
    ]
}

pub fn client_file_header() -> (r: Vec<String>)
    ensures
        r.deep_view() == spec_client_header(),
{
    let mut v: Vec<String> = Vec::new();
    v.push(String::from_str("id"));
    v.push(String::from_str("name"));
    v.push(String::from_str("contact_person"));
    proof {
        assert(v.deep_view() =~= spec_client_header());
    }
    v
}

pub fn project_file_header() -> (r: Vec<String>)
    ensures
        r.deep_view() == spec_project_header(),
{
    let mut v: Vec<String> = Vec::new();
    v.push(String::from_str("id"));
    v.push(String::from_str("title"));
    v.push(String::from_str("description"));
    v.push(String::from_str("order_date"));
    v.push(String::from_str("due_date"));
    v.push(String::from_str("completion_date"));
    v.push(String::from_str("client_id"));
    v.push(String::from_str("status"));
    v.push(String::from_str("folder_path"));
    proof {
        assert(v.deep_view() =~= spec_project_header());
    }
    v
}

/// The three fields a client is stored as.
pub open spec fn spec_client_fields(c: ClientV) -> Seq<Seq<char>> {
    seq![c.id, c.name, c.contact_person]
}

/// The client a three-field row stands for.
pub open spec fn spec_client_of_fields(f: Seq<Seq<char>>) -> ClientV {
    ClientV { id: f[0], name: f[1], contact_person: f[2] }
}

pub fn client_to_fields(c: &Client) -> (r: Vec<String>)
    ensures
        r.deep_view() == spec_client_fields(c@),
{
    let mut v: Vec<String> = Vec::new();
    v.push(c.id.clone());
    v.push(c.name.clone());
    v.push(c.contact_person.clone());
    proof {
        assert(v.deep_view() =~= spec_client_fields(c@));
    }
    v
}

pub fn client_of_fields(f: &Vec<String>) -> (r: Result<Client, StoreError>)
    ensures
        f@.len() == 3 ==> (r matches Ok(c) && c@ == spec_client_of_fields(f.deep_view())),
        f@.len() != 3 ==> (r matches Err(e) && e is Decode),
{
    if f.len() != 3 {
        return Err(
            StoreError::Decode { message: String::from_str("a client row must hold exactly three fields") },
        );
    }
    Ok(Client { id: f[0].clone(), name: f[1].clone(), contact_person: f[2].clone() })
}

/// Whether a row can be read back as a project row: nine fields with a
/// recognised status token.
pub open spec fn spec_fields_row_ok(f: Seq<Seq<char>>) -> bool {
    f.len() == 9 && spec_parse_status(f[7]) is Some
}

pub fn project_row_to_fields(row: &ProjectCSV) -> (r: Vec<String>)
    ensures
        r.deep_view() == spec_row_fields(row@),
{
    let mut v: Vec<String> = Vec::new();
    v.push(row.id.clone());
    v.push(row.title.clone());
    v.push(row.description.clone());
    v.push(row.order_date.clone());
    v.push(row.due_date.clone());
    v.push(
        match &row.completion_date {
            Some(s) => s.clone(),
            None => String::new(),
        },
    );
    v.push(row.client_id.clone());
    v.push(status_to_string(&row.status));
    v.push(row.folder_path.clone());
    proof {
        assert(v.deep_view() =~= spec_row_fields(row@));
    }
    v
}

pub fn project_row_of_fields(f: &Vec<String>) -> (r: Result<ProjectCSV, StoreError>)
    ensures
        spec_fields_row_ok(f.deep_view()) ==> (r matches Ok(row) && row@ == spec_row_of_fields(
            f.deep_view(),
        )),
        !spec_fields_row_ok(f.deep_view()) ==> (r matches Err(e) && e is Decode),
{
    if f.len() != 9 {
        return Err(
            StoreError::Decode { message: String::from_str("a project row must hold exactly nine fields") },
        );
    }
    let status = match parse_status(f[7].as_str()) {
        Some(s) => s,
        None => {
            return Err(
                StoreError::Decode { message: String::from_str("a project row must carry a known status token") },
            );
        },
    };
    let completion_date = if f[5].as_str().unicode_len() == 0 {
        None
    } else {
        Some(f[5].clone())
    };
    Ok(
        ProjectCSV {
            id: f[0].clone(),
            title: f[1].clone(),
            description: f[2].clone(),
            order_date: f[3].clone(),
            due_date: f[4].clone(),
            completion_date,
            client_id: f[6].clone(),
            status,
            folder_path: f[8].clone(),
        },
    )
}

/// The bytes of a sequence of records, first to last.
pub open spec fn spec_records_bytes(recs: Seq<Seq<Seq<char>>>) -> Seq<u8>
    decreases recs.len(),
{
    if recs.len() == 0 {
        Seq::empty()
    } else {
        spec_records_bytes(recs.drop_last()) + csv_record_encoded(recs.last())
    }
}

proof fn lemma_records_bytes_push(recs: Seq<Seq<Seq<char>>>, rec: Seq<Seq<char>>)
    ensures
        spec_records_bytes(recs.push(rec)) == spec_records_bytes(recs) + csv_record_encoded(rec),
{
    assert(recs.push(rec).drop_last() =~= recs);
    assert(recs.push(rec).last() == rec);
}

/// The whole client file for the given records: the header row, then one
/// row per client in order.
pub open spec fn spec_client_file_bytes(cs: Seq<ClientV>) -> Seq<u8> {
    spec_records_bytes(seq![spec_client_header()] + cs.map_values(|c: ClientV| spec_client_fields(c)))
}

/// The whole project file for the given rows: the header row, then one row
/// per project in order.
pub open spec fn spec_project_file_bytes(rows: Seq<ProjectCsvV>) -> Seq<u8> {
    spec_records_bytes(
        seq![spec_project_header()] + rows.map_values(|r: ProjectCsvV| spec_row_fields(r)),
    )
}

/// Encodes the full client file, header first.
pub fn encode_client_file(clients: &Vec<Client>) -> (r: Vec<u8>)
    ensures
        r@ == spec_client_file_bytes(clients.deep_view()),
{
    let header = client_file_header();
    let mut out = csv_encode_record(&header);
    let ghost all = seq![spec_client_header()] + clients.deep_view().map_values(
        |c: ClientV| spec_client_fields(c),
    );
    proof {
        assert(seq![spec_client_header()].drop_last() =~= Seq::<Seq<Seq<char>>>::empty());
        assert(spec_records_bytes(Seq::<Seq<Seq<char>>>::empty()) == Seq::<u8>::empty());
        assert(out@ =~= spec_records_bytes(seq![spec_client_header()]));
        assert(all.subrange(0, 1) =~= seq![spec_client_header()]);
    }
    let mut i: usize = 0;
    while i < clients.len()
        invariant
            0 <= i <= clients@.len(),
            all == seq![spec_client_header()] + clients.deep_view().map_values(
                |c: ClientV| spec_client_fields(c),
            ),
            out@ == spec_records_bytes(all.subrange(0, i as int + 1)),
        decreases clients@.len() - i,
    {
        let fields = client_to_fields(&clients[i]);
        let mut rec = csv_encode_record(&fields);
        proof {
            assert(all.subrange(0, i as int + 2) =~= all.subrange(0, i as int + 1).push(
                spec_client_fields(clients.deep_view()[i as int]),
            ));
            lemma_records_bytes_push(
                all.subrange(0, i as int + 1),
                spec_client_fields(clients.deep_view()[i as int]),
            );
        }
        out.append(&mut rec);
        i = i + 1;
    }
    proof {
        assert(all.subrange(0, clients@.len() as int + 1) =~= all);
    }
    out
}

/// Encodes the full project file, header first.
pub fn encode_project_file(rows: &Vec<ProjectCSV>) -> (r: Vec<u8>)
    ensures
        r@ == spec_project_file_bytes(rows.deep_view()),
{
    let header = project_file_header();
    let mut out = csv_encode_record(&header);
    let ghost all = seq![spec_project_header()] + rows.deep_view().map_values(
        |r: ProjectCsvV| spec_row_fields(r),
    );
    proof {
        assert(seq![spec_project_header()].drop_last() =~= Seq::<Seq<Seq<char>>>::empty());
        assert(spec_records_bytes(Seq::<Seq<Seq<char>>>::empty()) == Seq::<u8>::empty());
        assert(out@ =~= spec_records_bytes(seq![spec_project_header()]));
        assert(all.subrange(0, 1) =~= seq![spec_project_header()]);
    }
    let mut i: usize = 0;
    while i < rows.len()
        invariant
            0 <= i <= rows@.len(),
            all == seq![spec_project_header()] + rows.deep_view().map_values(
                |r: ProjectCsvV| spec_row_fields(r),
            ),
            out@ == spec_records_bytes(all.subrange(0, i as int + 1)),
        decreases rows@.len() - i,
    {
        let fields = project_row_to_fields(&rows[i]);
        let mut rec = csv_encode_record(&fields);
        proof {
            assert(all.subrange(0, i as int + 2) =~= all.subrange(0, i as int + 1).push(
                spec_row_fields(rows.deep_view()[i as int]),
            ));
            lemma_records_bytes_push(
                all.subrange(0, i as int + 1),
                spec_row_fields(rows.deep_view()[i as int]),
            );
        }
        out.append(&mut rec);
        i = i + 1;
    }
    proof {
        assert(all.subrange(0, rows@.len() as int + 1) =~= all);
    }
    out
}

/// Whether every data row of a parsed client file has the client arity.
pub open spec fn client_rows_ok(rows: Seq<Seq<Seq<char>>>) -> bool {
    forall|i: int| 1 <= i < rows.len() ==> (#[trigger] rows[i]).len() == 3
}

/// The clients the data rows of a parsed client file stand for.
pub open spec fn spec_clients_of_rows(rows: Seq<Seq<Seq<char>>>) -> Seq<ClientV> {
    Seq::new(
        if rows.len() == 0 {
            0
        } else {
            (rows.len() - 1) as nat
        },
        |i: int| spec_client_of_fields(rows[i + 1]),
    )
}

/// Whether every data row of a parsed project file reads back as a project
/// row.
pub open spec fn project_rows_ok(rows: Seq<Seq<Seq<char>>>) -> bool {
    forall|i: int| 1 <= i < rows.len() ==> spec_fields_row_ok(#[trigger] rows[i])
}

/// The project rows the data rows of a parsed project file stand for.
pub open spec fn spec_projects_of_rows(rows: Seq<Seq<Seq<char>>>) -> Seq<ProjectCsvV> {
    Seq::new(
        if rows.len() == 0 {
            0
        } else {
            (rows.len() - 1) as nat
        },
        |i: int| spec_row_of_fields(rows[i + 1]),
    )
}

/// Reads the whole client file.  The first record is the header and is not
/// interpreted; every further record must hold exactly the client fields.
pub fn decode_client_file(bytes: &[u8]) -> (r: Result<Vec<Client>, StoreError>)
    ensures
        csv_parsed(bytes@) is None ==> (r matches Err(e) && e is Decode),
        (csv_parsed(bytes@) matches Some(rows) ==> (if client_rows_ok(rows) {
            r matches Ok(cs) && cs.deep_view() == spec_clients_of_rows(rows)
        } else {
            r matches Err(e) && e is Decode
        })),
{
    let rows = match csv_parse_bytes(bytes) {
        Some(rows) => rows,
        None => {
            return Err(
                StoreError::Decode { message: String::from_str("the client file is not well-formed CSV") },
            );
        },
    };
    let mut clients: Vec<Client> = Vec::new();
    if rows.len() == 0 {
        proof {
            assert(clients.deep_view() =~= spec_clients_of_rows(rows.deep_view()));
        }
        return Ok(clients);
    }
    let mut i: usize = 1;
    while i < rows.len()
        invariant
            1 <= i <= rows@.len(),
            Some(rows.deep_view()) == csv_parsed(bytes@),
            forall|j: int| 1 <= j < i ==> (#[trigger] rows.deep_view()[j]).len() == 3,
            clients@.len() == i - 1,
            forall|k: int|
                0 <= k < i - 1 ==> (#[trigger] clients@[k])@ == spec_client_of_fields(
                    rows.deep_view()[k + 1],
                ),
        decreases rows@.len() - i,
    {
        let c = match client_of_fields(&rows[i]) {
            Ok(c) => c,
            Err(e) => {
                proof {
                    assert(rows.deep_view()[i as int] == rows@[i as int].deep_view());
                    assert(rows@[i as int].deep_view().len() == rows@[i as int]@.len());
                    assert(rows.deep_view()[i as int].len() != 3);
                    assert(!client_rows_ok(rows.deep_view()));
                    assert(csv_parsed(bytes@) == Some(rows.deep_view()));
                    assert(e is Decode);
                }
                return Err(e);
            },
        };
        clients.push(c);
        i = i + 1;
        proof {
            assert(rows.deep_view()[(i - 1) as int] == rows@[(i - 1) as int].deep_view());
        }
    }
    proof {
        assert(clients.deep_view() =~= spec_clients_of_rows(rows.deep_view()));
    }
    Ok(clients)
}

/// Reads the whole project file.  The first record is the header and is not
/// interpreted; every further record must read back as a project row.
pub fn decode_project_file(bytes: &[u8]) -> (r: Result<Vec<ProjectCSV>, StoreError>)
    ensures
        csv_parsed(bytes@) is None ==> (r matches Err(e) && e is Decode),
        (csv_parsed(bytes@) matches Some(rows) ==> (if project_rows_ok(rows) {
            r matches Ok(ps) && ps.deep_view() == spec_projects_of_rows(rows)
        } else {
            r matches Err(e) && e is Decode
        })),
{
    let rows = match csv_parse_bytes(bytes) {
        Some(rows) => rows,
        None => {
            return Err(
                StoreError::Decode { message: String::from_str("the project file is not well-formed CSV") },
            );
        },
    };
    let mut projects: Vec<ProjectCSV> = Vec::new();
    if rows.len() == 0 {
        proof {
            assert(projects.deep_view() =~= spec_projects_of_rows(rows.deep_view()));
        }
        return Ok(projects);
    }
    let mut i: usize = 1;
    while i < rows.len()
        invariant
            1 <= i <= rows@.len(),
            Some(rows.deep_view()) == csv_parsed(bytes@),
            forall|j: int| 1 <= j < i ==> spec_fields_row_ok(#[trigger] rows.deep_view()[j]),
            projects@.len() == i - 1,
            forall|k: int|
                0 <= k < i - 1 ==> (#[trigger] projects@[k])@ == spec_row_of_fields(
                    rows.deep_view()[k + 1],
                ),
        decreases rows@.len() - i,
    {
        let p = match project_row_of_fields(&rows[i]) {
            Ok(p) => p,
            Err(e) => {
                proof {
                    assert(rows.deep_view()[i as int] == rows@[i as int].deep_view());
                    assert(!spec_fields_row_ok(rows.deep_view()[i as int]));
                    assert(!project_rows_ok(rows.deep_view()));
                }
                return Err(e);
            },
        };
        projects.push(p);
        i = i + 1;
        proof {
            assert(rows.deep_view()[(i - 1) as int] == rows@[(i - 1) as int].deep_view());
        }
    }
    proof {
        assert(projects.deep_view() =~= spec_projects_of_rows(rows.deep_view()));
    }
    Ok(projects)
}

fn header_row_matches(row: &Vec<String>, expected: &Vec<String>) -> (r: bool)
    ensures
        r == (row.deep_view() == expected.deep_view()),
{
    if row.len() != expected.len() {
        assert(row.deep_view().len() != expected.deep_view().len());
        return false;
    }
    let mut i: usize = 0;
    while i < row.len()
        invariant
            row@.len() == expected@.len(),
            0 <= i <= row@.len(),
            forall|j: int| 0 <= j < i ==> row.deep_view()[j] == expected.deep_view()[j],
        decreases row@.len() - i,
    {
        if !str_eq(row[i].as_str(), expected[i].as_str()) {
            proof {
                assert(row.deep_view()[i as int] != expected.deep_view()[i as int]);
            }
            return false;
        }
        i = i + 1;
    }
    proof {
        assert(row.deep_view() =~= expected.deep_view());
    }
    true
}

/// Whether an existing client file opens with exactly the expected header
/// row; a file that does not parse, or is empty, does not.
pub fn client_file_header_ok(bytes: &[u8]) -> (r: bool)
    ensures
        r == (csv_parsed(bytes@) matches Some(rows) && rows.len() > 0 && rows[0]
            == spec_client_header()),
{
    match csv_parse_bytes(bytes) {
        Some(rows) => {
            if rows.len() == 0 {
                false
            } else {
                header_row_matches(&rows[0], &client_file_header())
            }
        },
        None => false,
    }
}

/// Whether an existing project file opens with exactly the expected header
/// row; a file that does not parse, or is empty, does not.
pub fn project_file_header_ok(bytes: &[u8]) -> (r: bool)
    ensures
        r == (csv_parsed(bytes@) matches Some(rows) && rows.len() > 0 && rows[0]
            == spec_project_header()),
{
    match csv_parse_bytes(bytes) {
        Some(rows) => {
            if rows.len() == 0 {
                false
            } else {
                header_row_matches(&rows[0], &project_file_header())
            }
        },
        None => false,
    }
}

} // verus!
