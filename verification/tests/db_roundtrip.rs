//! The built statements, run against a real database in memory.

use sqlite::{Connection, State};
use todo_backend::sql::{NamedRequest, Request};
use todo_backend::{database, tag, todo_item};

fn open_with_schema() -> Connection {
    let connection = sqlite::open(":memory:").unwrap();
    for statement in database::create_tables() {
        connection.execute(statement).unwrap();
    }
    connection
}

fn run(connection: &Connection, request: &Request) {
    let mut statement = connection.prepare(request.sql.as_str()).unwrap();
    for (i, value) in request.binds.iter().enumerate() {
        statement.bind((i + 1, value.as_str())).unwrap();
    }
    assert!(matches!(statement.next().unwrap(), State::Done));
}

fn run_named(connection: &Connection, request: &NamedRequest) {
    let mut statement = connection.prepare(request.sql.as_str()).unwrap();
    for (name, value) in request.binds.iter() {
        statement.bind((name.as_str(), value.as_str())).unwrap();
    }
    assert!(matches!(statement.next().unwrap(), State::Done));
}

fn read_tags(connection: &Connection) -> Vec<tag::Tag> {
    let request = tag::get_all_request();
    let mut statement = connection.prepare(request.sql.as_str()).unwrap();
    let mut rows = Vec::new();
    while let State::Row = statement.next().unwrap() {
        rows.push((
            statement.read::<String, _>(0).unwrap(),
            statement.read::<String, _>(1).unwrap(),
            statement.read::<String, _>(2).unwrap(),
        ));
    }
    tag::get_all(rows)
}

#[test]
fn schema_statements_are_accepted() {
    open_with_schema();
}

#[test]
fn tag_round_trip() {
    let connection = open_with_schema();
    let (insert, created) = tag::create(
        String::from("t1"),
        String::from("groceries"),
        String::from("#ff0000"),
    );
    run(&connection, &insert);
    let tags = read_tags(&connection);
    assert_eq!(tags.len(), 1);
    assert_eq!(tags[0].id, created.id);
    assert_eq!(tags[0].name, created.name);
    assert_eq!(tags[0].color, created.color);
}

#[test]
fn tag_update_round_trip() {
    let connection = open_with_schema();
    let (insert, _) = tag::create(
        String::from("t1"),
        String::from("groceries"),
        String::from("#ff0000"),
    );
    run(&connection, &insert);
    let update = tag::update(String::from("t1"), Some(String::from("food")), None);
    run_named(&connection, &update);
    let tags = read_tags(&connection);
    assert_eq!(tags[0].name, "food");
    assert_eq!(tags[0].color, "#ff0000");
}

#[test]
fn two_field_update_is_refused_by_the_engine() {
    // Assignments are joined with spaces alone, so a statement with two
    // of them does not parse: the engine refuses it at prepare time.
    let connection = open_with_schema();
    let update = tag::update(
        String::from("t1"),
        Some(String::from("food")),
        Some(String::from("#123456")),
    );
    assert!(connection.prepare(update.sql.as_str()).is_err());
    let empty = tag::update(String::from("t1"), None, None);
    assert!(connection.prepare(empty.sql.as_str()).is_err());
}

#[test]
fn todo_item_round_trip() {
    let connection = open_with_schema();
    let (insert, _) = todo_item::create(
        String::from("i1"),
        String::from("buy milk"),
        String::from("2024-01-30"),
        String::from("09:15"),
        String::from("UTC"),
    );
    run(&connection, &insert);
    let complete = todo_item::complete(
        String::from("i1"),
        String::from("2024-01-31"),
        String::from("18:00"),
        String::from("UTC"),
    );
    run(&connection, &complete);

    let select = todo_item::get_all_request(String::from("2024-01-31"));
    let mut statement = connection.prepare(select.sql.as_str()).unwrap();
    statement.bind((1, select.binds[0].as_str())).unwrap();
    let mut rows = Vec::new();
    while let State::Row = statement.next().unwrap() {
        rows.push(todo_item::TodoRow {
            id: statement.read::<String, _>(0).unwrap(),
            title: statement.read::<String, _>(1).unwrap(),
            description: statement.read::<Option<String>, _>(2).unwrap(),
            notes: statement.read::<Option<String>, _>(3).unwrap(),
            is_completed: statement.read::<String, _>(4).unwrap(),
            date_completed: statement.read::<Option<String>, _>(5).unwrap(),
            time_completed: statement.read::<Option<String>, _>(6).unwrap(),
            timezone_completed: statement.read::<Option<String>, _>(7).unwrap(),
            date_created: statement.read::<String, _>(8).unwrap(),
            time_created: statement.read::<String, _>(9).unwrap(),
            timezone_created: statement.read::<String, _>(10).unwrap(),
        });
    }
    let items = todo_item::get_all(rows);
    assert_eq!(items.len(), 1);
    assert!(items[0].is_completed);
    assert_eq!(items[0].date_completed, Some(String::from("2024-01-31")));

    // An item completed on another date is filtered out by the query.
    let select_other = todo_item::get_all_request(String::from("2024-02-01"));
    let mut statement = connection.prepare(select_other.sql.as_str()).unwrap();
    statement.bind((1, select_other.binds[0].as_str())).unwrap();
    assert!(matches!(statement.next().unwrap(), State::Done));
}

#[test]
fn link_round_trip() {
    let connection = open_with_schema();
    let add = todo_item::add_tag(String::from("i1"), String::from("t1"));
    run(&connection, &add);
    let select = todo_item::get_tags_request(String::from("i1"));
    let mut statement = connection.prepare(select.sql.as_str()).unwrap();
    statement.bind((1, select.binds[0].as_str())).unwrap();
    let mut tag_ids = Vec::new();
    while let State::Row = statement.next().unwrap() {
        tag_ids.push(statement.read::<String, _>(0).unwrap());
    }
    assert_eq!(tag_ids, vec![String::from("t1")]);

    let remove = todo_item::remove_tag(String::from("i1"), String::from("t1"));
    run(&connection, &remove);
    let mut statement = connection.prepare(select.sql.as_str()).unwrap();
    statement.bind((1, select.binds[0].as_str())).unwrap();
    assert!(matches!(statement.next().unwrap(), State::Done));
}

#[test]
fn duplicate_tag_id_is_refused_by_the_engine() {
    let connection = open_with_schema();
    let (insert, _) = tag::create(
        String::from("t1"),
        String::from("groceries"),
        String::from("#ff0000"),
    );
    run(&connection, &insert);
    let (again, _) = tag::create(
        String::from("t1"),
        String::from("other"),
        String::from("#00ff00"),
    );
    let mut statement = connection.prepare(again.sql.as_str()).unwrap();
    for (i, value) in again.binds.iter().enumerate() {
        statement.bind((i + 1, value.as_str())).unwrap();
    }
    assert!(statement.next().is_err());
}
