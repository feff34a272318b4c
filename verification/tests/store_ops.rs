//! The in-memory store: what each command does to the three tables.

use todo_backend::store::Store;

fn store_with_item(id: &str, title: &str) -> Store {
    let mut s = Store::new();
    s.create_todo_item(
        String::from(id),
        String::from(title),
        String::from("2024-01-01"),
        String::from("08:00"),
        String::from("UTC"),
    );
    s
}

#[test]
fn created_item_is_not_completed() {
    let mut s = Store::new();
    let item = s.create_todo_item(
        String::from("i1"),
        String::from("buy milk"),
        String::from("2024-01-01"),
        String::from("08:00"),
        String::from("UTC"),
    );
    assert!(!item.is_completed);
    assert_eq!(item.date_completed, None);
    assert_eq!(item.time_completed, None);
    assert_eq!(item.timezone_completed, None);
    assert_eq!(s.todo_items.len(), 1);
    assert_eq!(s.todo_items[0].title, "buy milk");
}

#[test]
fn complete_sets_all_completion_fields() {
    let mut s = store_with_item("i1", "buy milk");
    s.complete_todo_item(
        String::from("i1"),
        String::from("2024-01-02"),
        String::from("18:30"),
        String::from("Europe/Berlin"),
    );
    let item = &s.todo_items[0];
    assert!(item.is_completed);
    assert_eq!(item.date_completed, Some(String::from("2024-01-02")));
    assert_eq!(item.time_completed, Some(String::from("18:30")));
    assert_eq!(item.timezone_completed, Some(String::from("Europe/Berlin")));
    assert_eq!(item.title, "buy milk");
}

#[test]
fn complete_touches_only_the_matching_item() {
    let mut s = store_with_item("i1", "one");
    s.create_todo_item(
        String::from("i2"),
        String::from("two"),
        String::from("2024-01-01"),
        String::from("08:00"),
        String::from("UTC"),
    );
    s.complete_todo_item(
        String::from("i2"),
        String::from("2024-01-02"),
        String::from("09:00"),
        String::from("UTC"),
    );
    assert!(!s.todo_items[0].is_completed);
    assert!(s.todo_items[1].is_completed);
}

#[test]
fn uncomplete_clears_all_completion_fields() {
    let mut s = store_with_item("i1", "buy milk");
    s.complete_todo_item(
        String::from("i1"),
        String::from("2024-01-02"),
        String::from("18:30"),
        String::from("UTC"),
    );
    s.uncomplete_todo_item(String::from("i1"));
    let item = &s.todo_items[0];
    assert!(!item.is_completed);
    assert_eq!(item.date_completed, None);
    assert_eq!(item.time_completed, None);
    assert_eq!(item.timezone_completed, None);
}

#[test]
fn update_replaces_only_the_present_field() {
    let mut s = store_with_item("i1", "old title");
    s.update_todo_item(
        String::from("i1"),
        Some(String::from("new title")),
        None,
        None,
    );
    assert_eq!(s.todo_items[0].title, "new title");
    assert_eq!(s.todo_items[0].description, None);
    assert_eq!(s.todo_items[0].notes, None);
    s.update_todo_item(
        String::from("i1"),
        None,
        None,
        Some(String::from("a note")),
    );
    assert_eq!(s.todo_items[0].title, "new title");
    assert_eq!(s.todo_items[0].notes, Some(String::from("a note")));
}

#[test]
fn update_of_absent_id_changes_nothing() {
    let mut s = store_with_item("i1", "title");
    s.update_todo_item(String::from("nope"), Some(String::from("x")), None, None);
    assert_eq!(s.todo_items[0].title, "title");
}

#[test]
fn delete_removes_the_item_and_keeps_links() {
    let mut s = store_with_item("i1", "title");
    s.add_tag_to_todo_item(
        String::from("l1"),
        String::from("i1"),
        String::from("t1"),
    );
    s.delete_todo_item(String::from("i1"));
    assert!(s.todo_items.is_empty());
    // Cascading delete is not implemented: the join row stays behind.
    assert_eq!(s.links.len(), 1);
}

#[test]
fn get_todo_items_filters_by_completion_date() {
    let mut s = store_with_item("open", "still open");
    s.create_todo_item(
        String::from("done-today"),
        String::from("done today"),
        String::from("2024-01-01"),
        String::from("08:00"),
        String::from("UTC"),
    );
    s.create_todo_item(
        String::from("done-earlier"),
        String::from("done earlier"),
        String::from("2024-01-01"),
        String::from("08:00"),
        String::from("UTC"),
    );
    s.complete_todo_item(
        String::from("done-today"),
        String::from("2024-01-31"),
        String::from("10:00"),
        String::from("UTC"),
    );
    s.complete_todo_item(
        String::from("done-earlier"),
        String::from("2024-01-15"),
        String::from("10:00"),
        String::from("UTC"),
    );
    let visible = s.get_todo_items(&String::from("2024-01-31"));
    let ids: Vec<&str> = visible.iter().map(|i| i.id.as_str()).collect();
    assert_eq!(ids, vec!["open", "done-today"]);
}

#[test]
fn tag_crud() {
    let mut s = Store::new();
    let t = s.create_tag(
        String::from("t1"),
        String::from("groceries"),
        String::from("#ff0000"),
    );
    assert_eq!(t.name, "groceries");
    assert_eq!(t.color, "#ff0000");
    s.create_tag(
        String::from("t2"),
        String::from("chores"),
        String::from("#00ff00"),
    );
    let all = s.get_tags();
    assert_eq!(all.len(), 2);
    assert_eq!(all[0].id, "t1");
    assert_eq!(all[1].id, "t2");

    s.update_tag(String::from("t1"), Some(String::from("food")), None);
    assert_eq!(s.tags[0].name, "food");
    assert_eq!(s.tags[0].color, "#ff0000");
    s.update_tag(String::from("t1"), None, Some(String::from("#123456")));
    assert_eq!(s.tags[0].name, "food");
    assert_eq!(s.tags[0].color, "#123456");

    s.delete_tag(String::from("t1"));
    assert_eq!(s.tags.len(), 1);
    assert_eq!(s.tags[0].id, "t2");
}

#[test]
fn lookups_report_which_ids_are_taken() {
    let mut s = store_with_item("i1", "title");
    s.create_tag(
        String::from("t1"),
        String::from("groceries"),
        String::from("#ff0000"),
    );
    s.add_tag_to_todo_item(String::from("l1"), String::from("i1"), String::from("t1"));
    assert!(s.has_todo_item(&String::from("i1")));
    assert!(!s.has_todo_item(&String::from("i2")));
    assert!(s.has_tag(&String::from("t1")));
    assert!(!s.has_tag(&String::from("i1")));
    assert!(s.has_link(&String::from("l1")));
    assert!(!s.has_link(&String::from("t1")));
}

#[test]
fn update_tag_of_absent_id_changes_nothing() {
    let mut s = Store::new();
    s.create_tag(
        String::from("t1"),
        String::from("groceries"),
        String::from("#ff0000"),
    );
    s.update_tag(String::from("nope"), Some(String::from("x")), None);
    assert_eq!(s.tags[0].name, "groceries");
}

#[test]
fn empty_store_lists_nothing() {
    let s = Store::new();
    assert!(s.get_tags().is_empty());
    assert!(s.get_todo_items(&String::from("2024-01-01")).is_empty());
    assert!(s.get_todo_item_tags(&String::from("i1")).is_empty());
}

#[test]
fn item_tags_follow_the_join_rows_in_order() {
    let mut s = store_with_item("i1", "title");
    s.create_tag(
        String::from("t1"),
        String::from("groceries"),
        String::from("#ff0000"),
    );
    s.create_tag(
        String::from("t2"),
        String::from("chores"),
        String::from("#00ff00"),
    );
    s.add_tag_to_todo_item(String::from("l1"), String::from("i1"), String::from("t2"));
    s.add_tag_to_todo_item(String::from("l2"), String::from("i1"), String::from("t1"));
    s.add_tag_to_todo_item(String::from("l3"), String::from("other"), String::from("t1"));
    let tags = s.get_todo_item_tags(&String::from("i1"));
    let names: Vec<&str> = tags.iter().map(|t| t.name.as_str()).collect();
    assert_eq!(names, vec!["chores", "groceries"]);
}

#[test]
fn item_tags_skip_deleted_tags() {
    let mut s = store_with_item("i1", "title");
    s.create_tag(
        String::from("t1"),
        String::from("groceries"),
        String::from("#ff0000"),
    );
    s.add_tag_to_todo_item(String::from("l1"), String::from("i1"), String::from("t1"));
    s.delete_tag(String::from("t1"));
    // The dangling join row stays, but the tag it points at is gone.
    assert_eq!(s.links.len(), 1);
    assert!(s.get_todo_item_tags(&String::from("i1")).is_empty());
}

#[test]
fn remove_tag_detaches_exactly_that_pair() {
    let mut s = store_with_item("i1", "title");
    s.add_tag_to_todo_item(String::from("l1"), String::from("i1"), String::from("t1"));
    s.add_tag_to_todo_item(String::from("l2"), String::from("i1"), String::from("t2"));
    s.add_tag_to_todo_item(String::from("l3"), String::from("i2"), String::from("t1"));
    s.remove_tag_from_todo_item(String::from("i1"), String::from("t1"));
    assert_eq!(s.links.len(), 2);
    assert_eq!(s.links[0].id, "l2");
    assert_eq!(s.links[1].id, "l3");
}
