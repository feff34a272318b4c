//! The schema: the statements that create the three tables.
//!
//! The caller opens the database file and runs these statements, in
//! order, before anything else; each statement is a no-op when its table
//! already exists.

use vstd::prelude::*;

verus! {

/// The `tags` table: one row per tag, keyed by id.
pub open spec fn tags_table_sql() -> Seq<char> {
    "CREATE TABLE if not exists tags (id TEXT NOT NULL UNIQUE, color TEXT NOT NULL, name TEXT NOT NULL, PRIMARY KEY(id))"@
}

/// The `todoItems` table: one row per item, keyed by id, the completion
/// flag constrained to the texts 'true' and 'false'.
pub open spec fn todo_items_table_sql() -> Seq<char> {
    "CREATE TABLE if not exists todoItems (id TEXT NOT NULL UNIQUE, title TEXT NOT NULL, description TEXT, notes TEXT, isCompleted TEXT NOT NULL CHECK(isCompleted in ('true', 'false')), dateCompleted TEXT, timeCompleted TEXT, timezoneCompleted TEXT, dateCreated TEXT NOT NULL, timeCreated TEXT NOT NULL, timezoneCreated TEXT NOT NULL, PRIMARY KEY(id))"@
}

/// The `todoItemsTags` table: one row per attachment of a tag to an item.
pub open spec fn todo_items_tags_table_sql() -> Seq<char> {
    "CREATE TABLE if not exists todoItemsTags (id TEXT NOT NULL UNIQUE, todoItemId TEXT NOT NULL, tagId TEXT NOT NULL, PRIMARY KEY(id), FOREIGN KEY(todoItemId) REFERENCES todoItems(id), FOREIGN KEY(tagId) REFERENCES tags(id))"@
}

/// The statement that creates the tags table.
pub fn tags_table_statement() -> (r: String)
    ensures
        r@ == tags_table_sql(),
{
    String::from_str(
        "CREATE TABLE if not exists tags (id TEXT NOT NULL UNIQUE, color TEXT NOT NULL, name TEXT NOT NULL, PRIMARY KEY(id))",
    )
}

/// The statement that creates the to-do items table.
pub fn todo_items_table_statement() -> (r: String)
    ensures
        r@ == todo_items_table_sql(),
{
    String::from_str(
        "CREATE TABLE if not exists todoItems (id TEXT NOT NULL UNIQUE, title TEXT NOT NULL, description TEXT, notes TEXT, isCompleted TEXT NOT NULL CHECK(isCompleted in ('true', 'false')), dateCompleted TEXT, timeCompleted TEXT, timezoneCompleted TEXT, dateCreated TEXT NOT NULL, timeCreated TEXT NOT NULL, timezoneCreated TEXT NOT NULL, PRIMARY KEY(id))",
    )
}

/// The statement that creates the join table.
pub fn todo_items_tags_table_statement() -> (r: String)
    ensures
        r@ == todo_items_tags_table_sql(),
{
    String::from_str(
        "CREATE TABLE if not exists todoItemsTags (id TEXT NOT NULL UNIQUE, todoItemId TEXT NOT NULL, tagId TEXT NOT NULL, PRIMARY KEY(id), FOREIGN KEY(todoItemId) REFERENCES todoItems(id), FOREIGN KEY(tagId) REFERENCES tags(id))",
    )
}

/// The statements that create the whole schema, in the order they must
/// run: tags, then items, then the join table.
pub fn create_tables() -> (r: Vec<String>)
    ensures
        r@.len() == 3,
        r@[0]@ == tags_table_sql(),
        r@[1]@ == todo_items_table_sql(),
        r@[2]@ == todo_items_tags_table_sql(),
{
    let mut statements: Vec<String> = Vec::new();
    statements.push(tags_table_statement());
    statements.push(todo_items_table_statement());
    statements.push(todo_items_tags_table_statement());
    statements
}

} // verus!
