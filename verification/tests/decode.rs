//! Decoding the rows the queries return.

use todo_backend::tag;
use todo_backend::todo_item::{self, TodoRow};

fn row(id: &str, completed: &str, date_completed: Option<&str>) -> TodoRow {
    TodoRow {
        id: String::from(id),
        title: String::from("title of ") + id,
        description: None,
        notes: None,
        is_completed: String::from(completed),
        date_completed: date_completed.map(String::from),
        time_completed: date_completed.map(|_| String::from("12:00")),
        timezone_completed: date_completed.map(|_| String::from("UTC")),
        date_created: String::from("2024-01-01"),
        time_created: String::from("08:00"),
        timezone_created: String::from("UTC"),
    }
}

#[test]
fn tag_rows_decode_in_order() {
    let rows = vec![
        (
            String::from("t1"),
            String::from("#ff0000"),
            String::from("groceries"),
        ),
        (
            String::from("t2"),
            String::from("#00ff00"),
            String::from("chores"),
        ),
    ];
    let tags = tag::get_all(rows);
    assert_eq!(tags.len(), 2);
    assert_eq!(tags[0].id, "t1");
    assert_eq!(tags[0].color, "#ff0000");
    assert_eq!(tags[0].name, "groceries");
    assert_eq!(tags[1].id, "t2");
    assert_eq!(tags[1].color, "#00ff00");
    assert_eq!(tags[1].name, "chores");
}

#[test]
fn tag_get_returns_first_row() {
    let rows = vec![
        (
            String::from("t1"),
            String::from("#ff0000"),
            String::from("groceries"),
        ),
        (
            String::from("zz"),
            String::from("zz"),
            String::from("zz"),
        ),
    ];
    let tag = tag::get(rows).unwrap();
    assert_eq!(tag.id, "t1");
    assert_eq!(tag.name, "groceries");
}

#[test]
fn tag_get_not_found() {
    let err = tag::get(Vec::new()).unwrap_err();
    assert_eq!(err.code, Some(1));
    assert_eq!(err.message, Some(String::from("Tag not found")));
}

#[test]
fn todo_rows_decode_completion_flag() {
    let rows = vec![
        row("a", "true", Some("2024-01-02")),
        row("b", "false", None),
        row("c", "TRUE", None),
    ];
    let items = todo_item::get_all(rows);
    assert_eq!(items.len(), 3);
    assert!(items[0].is_completed);
    assert_eq!(items[0].date_completed, Some(String::from("2024-01-02")));
    assert!(!items[1].is_completed);
    assert_eq!(items[1].date_completed, None);
    // Anything but the exact text 'true' reads as not completed.
    assert!(!items[2].is_completed);
    assert_eq!(items[0].title, "title of a");
    assert_eq!(items[2].time_created, "08:00");
}

#[test]
fn get_tags_keeps_only_found_tags() {
    let lookups = vec![
        Ok(todo_backend::tag::Tag {
            id: String::from("t1"),
            color: String::from("#ff0000"),
            name: String::from("groceries"),
        }),
        Err(todo_backend::tag::DbError {
            code: Some(1),
            message: Some(String::from("Tag not found")),
        }),
        Ok(todo_backend::tag::Tag {
            id: String::from("t3"),
            color: String::from("#0000ff"),
            name: String::from("errands"),
        }),
    ];
    let tags = todo_item::get_tags(lookups);
    assert_eq!(tags.len(), 2);
    assert_eq!(tags[0].id, "t1");
    assert_eq!(tags[1].id, "t3");
}

#[test]
fn get_tags_of_nothing_is_empty() {
    assert!(todo_item::get_tags(Vec::new()).is_empty());
}
