//! The statements each operation builds, checked character for character.

use todo_backend::{database, tag, todo_item};

#[test]
fn tag_select_all_text() {
    let r = tag::get_all_request();
    assert_eq!(r.sql, "select id, color, name from tags");
    assert!(r.binds.is_empty());
}

#[test]
fn tag_select_one_text() {
    let r = tag::get_request(String::from("t1"));
    assert_eq!(r.sql, "select id, color, name from tags where id = ?");
    assert_eq!(r.binds, vec![String::from("t1")]);
}

#[test]
fn tag_insert_text() {
    let (r, t) = tag::create(
        String::from("t1"),
        String::from("groceries"),
        String::from("#ff0000"),
    );
    assert_eq!(r.sql, "insert into tags (id, name, color) values (?, ?, ?)");
    assert_eq!(
        r.binds,
        vec![
            String::from("t1"),
            String::from("groceries"),
            String::from("#ff0000"),
        ]
    );
    assert_eq!(t.id, "t1");
    assert_eq!(t.name, "groceries");
    assert_eq!(t.color, "#ff0000");
}

#[test]
fn tag_update_one_field() {
    let r = tag::update(String::from("t1"), Some(String::from("chores")), None);
    assert_eq!(r.sql, "update tags set name = :name where id = :id");
    assert_eq!(
        r.binds,
        vec![
            (String::from(":id"), String::from("t1")),
            (String::from(":name"), String::from("chores")),
        ]
    );
}

#[test]
fn tag_update_other_field() {
    let r = tag::update(String::from("t1"), None, Some(String::from("#00ff00")));
    assert_eq!(r.sql, "update tags set color = :color where id = :id");
    assert_eq!(
        r.binds,
        vec![
            (String::from(":id"), String::from("t1")),
            (String::from(":color"), String::from("#00ff00")),
        ]
    );
}

#[test]
fn tag_update_both_fields_is_not_parseable() {
    // Assignments are joined with spaces alone, so a two-field update is
    // not a statement the database engine accepts; the text is still
    // built deterministically.
    let r = tag::update(
        String::from("t1"),
        Some(String::from("chores")),
        Some(String::from("#00ff00")),
    );
    assert_eq!(
        r.sql,
        "update tags set name = :name color = :color where id = :id"
    );
    assert_eq!(r.binds.len(), 3);
}

#[test]
fn tag_update_no_fields() {
    let r = tag::update(String::from("t1"), None, None);
    assert_eq!(r.sql, "update tags set  where id = :id");
    assert_eq!(r.binds, vec![(String::from(":id"), String::from("t1"))]);
}

#[test]
fn tag_delete_text() {
    let r = tag::delete(String::from("t1"));
    assert_eq!(r.sql, "delete from tags where id = ?");
    assert_eq!(r.binds, vec![String::from("t1")]);
}

#[test]
fn todo_select_all_text() {
    let r = todo_item::get_all_request(String::from("2024-01-31"));
    assert_eq!(
        r.sql,
        "select id, title, description, notes, isCompleted, dateCompleted, timeCompleted, timezoneCompleted, dateCreated, timeCreated, timezoneCreated from todoItems where dateCompleted = ? or dateCompleted is null"
    );
    assert_eq!(r.binds, vec![String::from("2024-01-31")]);
}

#[test]
fn todo_insert_text() {
    let (r, item) = todo_item::create(
        String::from("i1"),
        String::from("buy milk"),
        String::from("2024-01-30"),
        String::from("09:15"),
        String::from("UTC"),
    );
    assert_eq!(
        r.sql,
        "insert into todoItems (id, title, isCompleted, dateCreated, timeCreated, timezoneCreated) values (?, ?, 'false', ?, ?, ?)"
    );
    assert_eq!(
        r.binds,
        vec![
            String::from("i1"),
            String::from("buy milk"),
            String::from("2024-01-30"),
            String::from("09:15"),
            String::from("UTC"),
        ]
    );
    assert_eq!(item.id, "i1");
    assert_eq!(item.title, "buy milk");
    assert!(!item.is_completed);
    assert_eq!(item.description, None);
    assert_eq!(item.notes, None);
    assert_eq!(item.date_completed, None);
    assert_eq!(item.time_completed, None);
    assert_eq!(item.timezone_completed, None);
    assert_eq!(item.date_created, "2024-01-30");
    assert_eq!(item.time_created, "09:15");
    assert_eq!(item.timezone_created, "UTC");
}

#[test]
fn todo_complete_text() {
    let r = todo_item::complete(
        String::from("i1"),
        String::from("2024-01-31"),
        String::from("18:00"),
        String::from("UTC"),
    );
    assert_eq!(
        r.sql,
        "update todoItems set isCompleted = 'true', dateCompleted = ?, timeCompleted = ?, timezoneCompleted = ? where id = ?"
    );
    assert_eq!(
        r.binds,
        vec![
            String::from("2024-01-31"),
            String::from("18:00"),
            String::from("UTC"),
            String::from("i1"),
        ]
    );
}

#[test]
fn todo_uncomplete_text() {
    let r = todo_item::uncomplete(String::from("i1"));
    assert_eq!(
        r.sql,
        "update todoItems set isCompleted = 'false', dateCompleted = null, timeCompleted = null, timezoneCompleted = null where id = ?"
    );
    assert_eq!(r.binds, vec![String::from("i1")]);
}

#[test]
fn todo_update_one_field() {
    let r = todo_item::update(
        String::from("i1"),
        None,
        Some(String::from("from the corner shop")),
        None,
    );
    assert_eq!(
        r.sql,
        "update todoItems set description = :description where id = :id"
    );
    assert_eq!(
        r.binds,
        vec![
            (String::from(":id"), String::from("i1")),
            (
                String::from(":description"),
                String::from("from the corner shop")
            ),
        ]
    );
}

#[test]
fn todo_update_notes_field() {
    let r = todo_item::update(String::from("i1"), None, None, Some(String::from("urgent")));
    assert_eq!(r.sql, "update todoItems set notes = :notes where id = :id");
    assert_eq!(
        r.binds,
        vec![
            (String::from(":id"), String::from("i1")),
            (String::from(":notes"), String::from("urgent")),
        ]
    );
}

#[test]
fn todo_delete_text() {
    let r = todo_item::delete(String::from("i1"));
    assert_eq!(r.sql, "delete from todoItems where id = ?");
    assert_eq!(r.binds, vec![String::from("i1")]);
}

#[test]
fn link_insert_generates_fresh_id() {
    let r = todo_item::add_tag(String::from("i1"), String::from("t1"));
    assert_eq!(
        r.sql,
        "insert into todoItemsTags (id, todoItemId, tagId) values (?, ?, ?)"
    );
    assert_eq!(r.binds.len(), 3);
    assert_eq!(r.binds[0].len(), 36);
    assert_eq!(r.binds[1], "i1");
    assert_eq!(r.binds[2], "t1");
    // The row id is a hyphenated identifier, not an echo of the inputs.
    let hyphens: Vec<usize> = r.binds[0]
        .char_indices()
        .filter(|(_, c)| *c == '-')
        .map(|(i, _)| i)
        .collect();
    assert_eq!(hyphens, vec![8, 13, 18, 23]);
    let again = todo_item::add_tag(String::from("i1"), String::from("t1"));
    assert_ne!(r.binds[0], again.binds[0]);
}

#[test]
fn link_delete_text() {
    let r = todo_item::remove_tag(String::from("i1"), String::from("t1"));
    assert_eq!(
        r.sql,
        "delete from todoItemsTags where todoItemId = ? and tagId = ?"
    );
    assert_eq!(r.binds, vec![String::from("i1"), String::from("t1")]);
}

#[test]
fn link_select_text() {
    let r = todo_item::get_tags_request(String::from("i1"));
    assert_eq!(r.sql, "select tagId from todoItemsTags where todoItemId = ?");
    assert_eq!(r.binds, vec![String::from("i1")]);
}

#[test]
fn schema_statements() {
    let statements = database::create_tables();
    assert_eq!(statements.len(), 3);
    assert!(statements[0].starts_with("CREATE TABLE if not exists tags ("));
    assert!(statements[1].starts_with("CREATE TABLE if not exists todoItems ("));
    assert!(statements[2].starts_with("CREATE TABLE if not exists todoItemsTags ("));
    assert!(statements[1].contains("isCompleted TEXT NOT NULL CHECK(isCompleted in ('true', 'false'))"));
    assert!(statements[2].contains("FOREIGN KEY(todoItemId) REFERENCES todoItems(id)"));
}
