use batch_cognito::export::CommonOperationArgs;
use batch_cognito::export::ExportError;
use batch_cognito::export::Exporter;
use batch_cognito::export::PageOutcome;
use batch_cognito::export::UserPage;
use batch_cognito::export::run_export_plan;
use batch_cognito::record::UserAttribute;
use batch_cognito::record::UserRecord;
use batch_cognito::record::extract_username_and_email;

fn bytes(s: &str) -> Vec<u8> {
    s.as_bytes().to_vec()
}

fn attribute(name: &str, value: Option<&str>) -> UserAttribute {
    UserAttribute { name: bytes(name), value: value.map(bytes) }
}

fn record(username: Option<&str>, attributes: Vec<UserAttribute>) -> UserRecord {
    UserRecord { username: username.map(bytes), attributes }
}

fn ready(users: Vec<UserRecord>, next_cursor: Option<&str>) -> PageOutcome {
    PageOutcome::Ready(UserPage { users, next_cursor: next_cursor.map(str::to_string) })
}

fn line_feeds(output: &[u8]) -> usize {
    output.iter().filter(|&&b| b == b'\n').count()
}

#[test]
fn empty_pool_gives_header_only() {
    let pool = String::from("pool-a");
    let outcomes = vec![ready(vec![], None)];
    let run = run_export_plan(&pool, &outcomes);
    assert_eq!(run.output, bytes("username,email\n"));
    assert_eq!(run.outcome, Ok(0));
    assert_eq!(line_feeds(&run.output), 1);
}

#[test]
fn email_attribute_value_is_second_field() {
    let (username, email) = extract_username_and_email(&record(
        Some("u1"),
        vec![attribute("locale", Some("en")), attribute("email", Some("a@b.com"))],
    ));
    assert_eq!(username, bytes("u1"));
    assert_eq!(email, bytes("a@b.com"));
}

#[test]
fn missing_email_attribute_gives_empty_second_field() {
    let pool = String::from("pool-a");
    let outcomes = vec![ready(vec![record(Some("u1"), vec![attribute("locale", Some("en"))])], None)];
    let run = run_export_plan(&pool, &outcomes);
    assert_eq!(run.output, bytes("username,email\nu1,\n"));
    assert_eq!(run.outcome, Ok(1));
}

#[test]
fn email_attribute_without_value_gives_empty_second_field() {
    let (_, email) =
        extract_username_and_email(&record(Some("u1"), vec![attribute("email", None)]));
    assert_eq!(email, bytes(""));
}

#[test]
fn first_email_attribute_wins() {
    let (_, email) = extract_username_and_email(&record(
        Some("u1"),
        vec![attribute("email", Some("first@x")), attribute("email", Some("second@x"))],
    ));
    assert_eq!(email, bytes("first@x"));
}

#[test]
fn absent_username_gives_empty_first_field() {
    let pool = String::from("pool-a");
    let outcomes = vec![ready(vec![record(None, vec![attribute("email", Some("a@b.com"))])], None)];
    let run = run_export_plan(&pool, &outcomes);
    assert_eq!(run.output, bytes("username,email\n,a@b.com\n"));
    assert_eq!(run.outcome, Ok(1));
}

#[test]
fn pagination_issues_requests_in_order() {
    let pool = String::from("pool-a");
    let page = |n: usize, cursor: Option<&str>| {
        let users = (0..n)
            .map(|k| {
                record(Some(&format!("user{k}")), vec![attribute("email", Some(&format!("u{k}@x")))])
            })
            .collect::<Vec<_>>();
        ready(users, cursor)
    };
    let outcomes = vec![page(60, Some("tok1")), page(60, Some("tok2")), page(7, None)];
    let run = run_export_plan(&pool, &outcomes);

    assert_eq!(run.requests.len(), 3);
    for request in &run.requests {
        assert_eq!(request.pool_id, "pool-a");
        assert_eq!(request.limit, 60);
    }
    assert_eq!(run.requests[0].cursor, None);
    assert_eq!(run.requests[1].cursor, Some(String::from("tok1")));
    assert_eq!(run.requests[2].cursor, Some(String::from("tok2")));
    assert_eq!(run.outcome, Ok(127));
    assert_eq!(line_feeds(&run.output), 128);
}

#[test]
fn second_page_failure_keeps_first_page_rows() {
    let pool = String::from("pool-a");
    let first = ready(
        vec![record(Some("u1"), vec![attribute("email", Some("a@b.com"))])],
        Some("tok1"),
    );
    let outcomes = vec![first, PageOutcome::Failed];
    let run = run_export_plan(&pool, &outcomes);
    assert_eq!(run.outcome, Err(ExportError::RemoteCallFailure));
    assert_eq!(run.requests.len(), 2);
    assert_eq!(run.output, bytes("username,email\nu1,a@b.com\n"));
}

#[test]
fn source_that_never_terminates_is_a_remote_failure() {
    let pool = String::from("pool-a");
    let outcomes = vec![ready(vec![], Some("tok1")), ready(vec![], Some("tok2"))];
    let run = run_export_plan(&pool, &outcomes);
    assert_eq!(run.outcome, Err(ExportError::RemoteCallFailure));
    assert_eq!(run.requests.len(), 3);
    assert_eq!(run.output, bytes("username,email\n"));
}

#[test]
fn line_count_is_rows_plus_header() {
    let pool = String::from("pool-a");
    let users = vec![
        record(Some("u1"), vec![attribute("email", Some("a@x"))]),
        record(Some("u2"), vec![]),
        record(None, vec![attribute("email", Some("c@x"))]),
    ];
    let run = run_export_plan(&pool, &vec![ready(users, None)]);
    assert_eq!(run.outcome, Ok(3));
    assert_eq!(line_feeds(&run.output), 4);
}

#[test]
fn comma_in_field_is_quoted() {
    let pool = String::from("pool-a");
    let outcomes = vec![ready(
        vec![record(Some("u1"), vec![attribute("email", Some("x,y@z"))])],
        None,
    )];
    let run = run_export_plan(&pool, &outcomes);
    assert_eq!(run.output, bytes("username,email\nu1,\"x,y@z\"\n"));
}

#[test]
fn quote_in_field_is_doubled() {
    let pool = String::from("pool-a");
    let outcomes = vec![ready(
        vec![record(Some("a\"b"), vec![attribute("email", Some("e@x"))])],
        None,
    )];
    let run = run_export_plan(&pool, &outcomes);
    assert_eq!(run.output, bytes("username,email\n\"a\"\"b\",e@x\n"));
}

#[test]
fn newline_in_field_is_quoted() {
    let pool = String::from("pool-a");
    let outcomes = vec![ready(
        vec![record(Some("a\nb"), vec![attribute("email", Some("e@x"))])],
        None,
    )];
    let run = run_export_plan(&pool, &outcomes);
    assert_eq!(run.output, bytes("username,email\n\"a\nb\",e@x\n"));
    assert_eq!(line_feeds(&run.output), 3);
}

#[test]
fn exporter_first_request_has_no_cursor() {
    let exporter = Exporter::new(String::from("pool-a"));
    let request = exporter.next_request();
    assert_eq!(request.pool_id, "pool-a");
    assert_eq!(request.limit, 60);
    assert_eq!(request.cursor, None);
    assert_eq!(exporter.total_rows(), 0);
    assert!(!exporter.is_finished());
}

#[test]
fn exporter_advance_follows_cursor_and_counts() {
    let mut exporter = Exporter::new(String::from("pool-a"));
    let page = UserPage {
        users: vec![record(Some("u1"), vec![]), record(Some("u2"), vec![])],
        next_cursor: Some(String::from("tok1")),
    };
    exporter.advance(&page);
    assert_eq!(exporter.total_rows(), 2);
    assert!(!exporter.is_finished());
    assert_eq!(exporter.next_request().cursor, Some(String::from("tok1")));

    let last = UserPage { users: vec![record(Some("u3"), vec![])], next_cursor: None };
    exporter.advance(&last);
    assert_eq!(exporter.total_rows(), 3);
    assert!(exporter.is_finished());
}

#[test]
fn validate_requires_nonempty_pool_id() {
    let good = CommonOperationArgs {
        pool_id: String::from("pool-a"),
        emails_file: None,
        timeout: Some(5),
        concurrency: 1,
    };
    assert!(good.validate());
    let bad = CommonOperationArgs {
        pool_id: String::new(),
        emails_file: Some(String::from("out.csv")),
        timeout: None,
        concurrency: 1,
    };
    assert!(!bad.validate());
}
