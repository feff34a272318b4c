//! To-do items: a task record with optional completion metadata, and the
//! join rows that attach tags to it.
//!
//! Each function either builds the statement that one operation sends to
//! the database, or decodes the rows that came back.

use crate::sql;
use crate::sql::{NamedRequest, Request, RequestV};
use crate::tag::{DbError, Tag, TagV};
use vstd::prelude::*;

verus! {

/// A task record.  Rows of the `todoItems` table hold exactly these
/// columns, with the completion flag stored as the text 'true' or 'false'.
#[derive(Debug)]
pub struct TodoItem {
    pub id: String,
    pub title: String,
    pub description: Option<String>,
    pub notes: Option<String>,
    pub is_completed: bool,
    pub date_completed: Option<String>,
    pub time_completed: Option<String>,
    pub timezone_completed: Option<String>,
    pub date_created: String,
    pub time_created: String,
    pub timezone_created: String,
}

/// The mathematical value of a `TodoItem`.
#[verifier::ext_equal]
pub ghost struct TodoItemV {
    pub id: Seq<char>,
    pub title: Seq<char>,
    pub description: Option<Seq<char>>,
    pub notes: Option<Seq<char>>,
    pub is_completed: bool,
    pub date_completed: Option<Seq<char>>,
    pub time_completed: Option<Seq<char>>,
    pub timezone_completed: Option<Seq<char>>,
    pub date_created: Seq<char>,
    pub time_created: Seq<char>,
    pub timezone_created: Seq<char>,
}

impl TodoItemV {
    /// Completion metadata is all-or-nothing: the date, time and timezone
    /// of completion are set exactly when the item is marked completed,
    /// and cleared together when it is not.
    pub open spec fn well_formed(self) -> bool {
        &&& self.is_completed <==> self.date_completed is Some
        &&& self.is_completed <==> self.time_completed is Some
        &&& self.is_completed <==> self.timezone_completed is Some
    }
}

impl View for TodoItem {
    type V = TodoItemV;

    open spec fn view(&self) -> TodoItemV {
        TodoItemV {
            id: self.id@,
            title: self.title@,
            description: sql::opt_view(self.description),
            notes: sql::opt_view(self.notes),
            is_completed: self.is_completed,
            date_completed: sql::opt_view(self.date_completed),
            time_completed: sql::opt_view(self.time_completed),
            timezone_completed: sql::opt_view(self.timezone_completed),
            date_created: self.date_created@,
            time_created: self.time_created@,
            timezone_created: self.timezone_created@,
        }
    }
}

/// Copies an optional string, value for value.
fn clone_opt(o: &Option<String>) -> (r: Option<String>)
    ensures
        r == *o,
{
    match o {
        Some(s) => Some(s.clone()),
        None => None,
    }
}

impl Clone for TodoItem {
    fn clone(&self) -> (r: Self)
        ensures
            r@ == self@,
    {
        TodoItem {
            id: self.id.clone(),
            title: self.title.clone(),
            description: clone_opt(&self.description),
            notes: clone_opt(&self.notes),
            is_completed: self.is_completed,
            date_completed: clone_opt(&self.date_completed),
            time_completed: clone_opt(&self.time_completed),
            timezone_completed: clone_opt(&self.timezone_completed),
            date_created: self.date_created.clone(),
            time_created: self.time_created.clone(),
            timezone_created: self.timezone_created.clone(),
        }
    }
}

/// The item `create` stores: nothing optional filled in, not completed.
pub open spec fn new_item(
    id: Seq<char>,
    title: Seq<char>,
    date_created: Seq<char>,
    time_created: Seq<char>,
    timezone_created: Seq<char>,
) -> TodoItemV {
    TodoItemV {
        id,
        title,
        description: None,
        notes: None,
        is_completed: false,
        date_completed: None,
        time_completed: None,
        timezone_completed: None,
        date_created,
        time_created,
        timezone_created,
    }
}

/// The item after `complete`: marked completed, the three completion
/// fields set, everything else untouched.
pub open spec fn completed_item(
    t: TodoItemV,
    date: Seq<char>,
    time: Seq<char>,
    timezone: Seq<char>,
) -> TodoItemV {
    TodoItemV {
        is_completed: true,
        date_completed: Some(date),
        time_completed: Some(time),
        timezone_completed: Some(timezone),
        ..t
    }
}

/// The item after `uncomplete`: not completed, the three completion
/// fields cleared, everything else untouched.
pub open spec fn uncompleted_item(t: TodoItemV) -> TodoItemV {
    TodoItemV {
        is_completed: false,
        date_completed: None,
        time_completed: None,
        timezone_completed: None,
        ..t
    }
}

/// The item after `update`: each present field replaced, each absent one
/// kept.
pub open spec fn updated_item(
    t: TodoItemV,
    title: Option<Seq<char>>,
    description: Option<Seq<char>>,
    notes: Option<Seq<char>>,
) -> TodoItemV {
    TodoItemV {
        title: match title {
            Some(v) => v,
            None => t.title,
        },
        description: match description {
            Some(v) => Some(v),
            None => t.description,
        },
        notes: match notes {
            Some(v) => Some(v),
            None => t.notes,
        },
        ..t
    }
}

/// One row of the `todoItems` table, column for column.  The completion
/// flag arrives as text; columns that allow null arrive as options.
#[derive(Debug)]
pub struct TodoRow {
    pub id: String,
    pub title: String,
    pub description: Option<String>,
    pub notes: Option<String>,
    pub is_completed: String,
    pub date_completed: Option<String>,
    pub time_completed: Option<String>,
    pub timezone_completed: Option<String>,
    pub date_created: String,
    pub time_created: String,
    pub timezone_created: String,
}

/// The mathematical value of a `TodoRow`.
#[verifier::ext_equal]
pub ghost struct TodoRowV {
    pub id: Seq<char>,
    pub title: Seq<char>,
    pub description: Option<Seq<char>>,
    pub notes: Option<Seq<char>>,
    pub is_completed: Seq<char>,
    pub date_completed: Option<Seq<char>>,
    pub time_completed: Option<Seq<char>>,
    pub timezone_completed: Option<Seq<char>>,
    pub date_created: Seq<char>,
    pub time_created: Seq<char>,
    pub timezone_created: Seq<char>,
}

impl View for TodoRow {
    type V = TodoRowV;

    open spec fn view(&self) -> TodoRowV {
        TodoRowV {
            id: self.id@,
            title: self.title@,
            description: sql::opt_view(self.description),
            notes: sql::opt_view(self.notes),
            is_completed: self.is_completed@,
            date_completed: sql::opt_view(self.date_completed),
            time_completed: sql::opt_view(self.time_completed),
            timezone_completed: sql::opt_view(self.timezone_completed),
            date_created: self.date_created@,
            time_created: self.time_created@,
            timezone_created: self.timezone_created@,
        }
    }
}

/// The item one result row holds: every column taken as it is, the
/// completion flag true exactly when the column holds the text 'true'.
pub open spec fn row_item(row: TodoRowV) -> TodoItemV {
    TodoItemV {
        id: row.id,
        title: row.title,
        description: row.description,
        notes: row.notes,
        is_completed: row.is_completed == "true"@,
        date_completed: row.date_completed,
        time_completed: row.time_completed,
        timezone_completed: row.timezone_completed,
        date_created: row.date_created,
        time_created: row.time_created,
        timezone_created: row.timezone_created,
    }
}

/// The statement that reads the items visible for one date: those
/// completed on that date, and those not completed at all.
pub open spec fn select_all_sql() -> Seq<char> {
    "select id, title, description, notes, isCompleted, dateCompleted, timeCompleted, timezoneCompleted, dateCreated, timeCreated, timezoneCreated from todoItems where dateCompleted = ? or dateCompleted is null"@
}

/// The statement that inserts an item, binds in the order
/// (id, title, dateCreated, timeCreated, timezoneCreated).
pub open spec fn insert_sql() -> Seq<char> {
    "insert into todoItems (id, title, isCompleted, dateCreated, timeCreated, timezoneCreated) values (?, ?, 'false', ?, ?, ?)"@
}

/// The statement that marks an item completed, binds in the order
/// (dateCompleted, timeCompleted, timezoneCompleted, id).
pub open spec fn complete_sql() -> Seq<char> {
    "update todoItems set isCompleted = 'true', dateCompleted = ?, timeCompleted = ?, timezoneCompleted = ? where id = ?"@
}

/// The statement that marks an item not completed and clears its
/// completion fields.
pub open spec fn uncomplete_sql() -> Seq<char> {
    "update todoItems set isCompleted = 'false', dateCompleted = null, timeCompleted = null, timezoneCompleted = null where id = ?"@
}

/// The statement that deletes the item with a given id.
pub open spec fn delete_sql() -> Seq<char> {
    "delete from todoItems where id = ?"@
}

/// The statement that attaches a tag to an item, binds in the order
/// (row id, todoItemId, tagId).
pub open spec fn link_insert_sql() -> Seq<char> {
    "insert into todoItemsTags (id, todoItemId, tagId) values (?, ?, ?)"@
}

/// The statement that detaches a tag from an item, binds in the order
/// (todoItemId, tagId).
pub open spec fn link_delete_sql() -> Seq<char> {
    "delete from todoItemsTags where todoItemId = ? and tagId = ?"@
}

/// The statement that reads the tag ids attached to one item.
pub open spec fn link_select_sql() -> Seq<char> {
    "select tagId from todoItemsTags where todoItemId = ?"@
}

/// Builds the query behind `get_all`: read the items completed on the
/// given date, and the ones not completed.
pub fn get_all_request(date_completed: String) -> (r: Request)
    ensures
        r@ == (RequestV { sql: select_all_sql(), binds: seq![date_completed@] }),
{
    let ghost datev = date_completed@;
    let mut binds: Vec<String> = Vec::new();
    binds.push(date_completed);
    let r = Request {
        sql: String::from_str(
            "select id, title, description, notes, isCompleted, dateCompleted, timeCompleted, timezoneCompleted, dateCreated, timeCreated, timezoneCreated from todoItems where dateCompleted = ? or dateCompleted is null",
        ),
        binds,
    };
    proof {
        assert(r@.binds =~= seq![datev]);
        assert(r@ =~= RequestV { sql: select_all_sql(), binds: seq![datev] });
    }
    r
}

/// Decodes the rows the `get_all` query returned, in order.
pub fn get_all(rows: Vec<TodoRow>) -> (r: Vec<TodoItem>)
    ensures
        r@.len() == rows@.len(),
        forall|j: int| 0 <= j < rows@.len() ==> r@[j]@ == row_item(rows@[j]@),
{
    let truth = String::from_str("true");
    let mut items: Vec<TodoItem> = Vec::new();
    let mut i: usize = 0;
    while i < rows.len()
        invariant
            i <= rows@.len(),
            truth@ == "true"@,
            items@.len() == i,
            forall|j: int| 0 <= j < i ==> items@[j]@ == row_item(rows@[j]@),
        decreases rows@.len() - i,
    {
        let row = &rows[i];
        let item = TodoItem {
            id: row.id.clone(),
            title: row.title.clone(),
            description: clone_opt(&row.description),
            notes: clone_opt(&row.notes),
            is_completed: row.is_completed == truth,
            date_completed: clone_opt(&row.date_completed),
            time_completed: clone_opt(&row.time_completed),
            timezone_completed: clone_opt(&row.timezone_completed),
            date_created: row.date_created.clone(),
            time_created: row.time_created.clone(),
            timezone_created: row.timezone_created.clone(),
        };
        items.push(item);
        i = i + 1;
    }
    items
}

/// Builds the insert behind `create` and the item it stores: a fresh,
/// not yet completed item with exactly the given fields.
pub fn create(
    id: String,
    title: String,
    date_created: String,
    time_created: String,
    timezone_created: String,
) -> (r: (Request, TodoItem))
    ensures
        r.0@ == (RequestV {
            sql: insert_sql(),
            binds: seq![id@, title@, date_created@, time_created@, timezone_created@],
        }),
        r.1@ == new_item(id@, title@, date_created@, time_created@, timezone_created@),
        r.1@.well_formed(),
{
    let ghost idv = id@;
    let ghost titlev = title@;
    let ghost datev = date_created@;
    let ghost timev = time_created@;
    let ghost tzv = timezone_created@;
    let item = TodoItem {
        id: id.clone(),
        title: title.clone(),
        description: None,
        notes: None,
        is_completed: false,
        date_completed: None,
        time_completed: None,
        timezone_completed: None,
        date_created: date_created.clone(),
        time_created: time_created.clone(),
        timezone_created: timezone_created.clone(),
    };
    let mut binds: Vec<String> = Vec::new();
    binds.push(id);
    binds.push(title);
    binds.push(date_created);
    binds.push(time_created);
    binds.push(timezone_created);
    let request = Request {
        sql: String::from_str(
            "insert into todoItems (id, title, isCompleted, dateCreated, timeCreated, timezoneCreated) values (?, ?, 'false', ?, ?, ?)",
        ),
        binds,
    };
    proof {
        assert(request@.binds =~= seq![idv, titlev, datev, timev, tzv]);
        assert(request@ =~= RequestV {
            sql: insert_sql(),
            binds: seq![idv, titlev, datev, timev, tzv],
        });
    }
    (request, item)
}

/// Builds the update behind `complete`: mark the item completed and set
/// its completion fields, binds in the order (date, time, timezone, id).
pub fn complete(
    id: String,
    date_completed: String,
    time_completed: String,
    timezone_completed: String,
) -> (r: Request)
    ensures
        r@ == (RequestV {
            sql: complete_sql(),
            binds: seq![date_completed@, time_completed@, timezone_completed@, id@],
        }),
{
    let ghost datev = date_completed@;
    let ghost timev = time_completed@;
    let ghost tzv = timezone_completed@;
    let ghost idv = id@;
    let mut binds: Vec<String> = Vec::new();
    binds.push(date_completed);
    binds.push(time_completed);
    binds.push(timezone_completed);
    binds.push(id);
    let r = Request {
        sql: String::from_str(
            "update todoItems set isCompleted = 'true', dateCompleted = ?, timeCompleted = ?, timezoneCompleted = ? where id = ?",
        ),
        binds,
    };
    proof {
        assert(r@.binds =~= seq![datev, timev, tzv, idv]);
        assert(r@ =~= RequestV { sql: complete_sql(), binds: seq![datev, timev, tzv, idv] });
    }
    r
}

/// Builds the update behind `uncomplete`: mark the item not completed and
/// clear its completion fields.
pub fn uncomplete(id: String) -> (r: Request)
    ensures
        r@ == (RequestV { sql: uncomplete_sql(), binds: seq![id@] }),
{
    let ghost idv = id@;
    let mut binds: Vec<String> = Vec::new();
    binds.push(id);
    let r = Request {
        sql: String::from_str(
            "update todoItems set isCompleted = 'false', dateCompleted = null, timeCompleted = null, timezoneCompleted = null where id = ?",
        ),
        binds,
    };
    proof {
        assert(r@.binds =~= seq![idv]);
        assert(r@ =~= RequestV { sql: uncomplete_sql(), binds: seq![idv] });
    }
    r
}

/// The optional fields of an item update, in the order the statement
/// names them.
pub open spec fn update_fields(
    title: Option<Seq<char>>,
    description: Option<Seq<char>>,
    notes: Option<Seq<char>>,
) -> Seq<(Seq<char>, Option<Seq<char>>)> {
    seq![("title"@, title), ("description"@, description), ("notes"@, notes)]
}

/// Builds the partial update behind `update`: one assignment for each
/// present field, the id bound as `:id`.
pub fn update(
    id: String,
    title: Option<String>,
    description: Option<String>,
    notes: Option<String>,
) -> (r: NamedRequest)
    ensures
        r@.sql == sql::update_sql(
            "update todoItems set"@,
            update_fields(sql::opt_view(title), sql::opt_view(description), sql::opt_view(notes)),
        ),
        r@.binds == sql::update_binds(
            id@,
            update_fields(sql::opt_view(title), sql::opt_view(description), sql::opt_view(notes)),
        ),
{
    let ghost titlev = sql::opt_view(title);
    let ghost descv = sql::opt_view(description);
    let ghost notesv = sql::opt_view(notes);
    let mut fields: Vec<(String, Option<String>)> = Vec::new();
    fields.push((String::from_str("title"), title));
    fields.push((String::from_str("description"), description));
    fields.push((String::from_str("notes"), notes));
    proof {
        assert(sql::fields_view(fields@) =~= update_fields(titlev, descv, notesv));
    }
    sql::build_update("update todoItems set", fields, id)
}

/// Builds the delete behind `delete`: remove the item with the given id.
pub fn delete(id: String) -> (r: Request)
    ensures
        r@ == (RequestV { sql: delete_sql(), binds: seq![id@] }),
{
    let ghost idv = id@;
    let mut binds: Vec<String> = Vec::new();
    binds.push(id);
    let r = Request { sql: String::from_str("delete from todoItems where id = ?"), binds };
    proof {
        assert(r@.binds =~= seq![idv]);
        assert(r@ =~= RequestV { sql: delete_sql(), binds: seq![idv] });
    }
    r
}

/// Relies on `uuid::Uuid::new_v4` and its display form: a fresh random
/// identifier rendered as 36 hyphenated hexadecimal characters.
#[verifier::external_body]
fn new_uuid() -> (r: String)
    ensures
        r@.len() == 36,
{
    uuid::Uuid::new_v4().to_string()
}

/// Builds the insert behind `add_tag`: a fresh join row attaching the tag
/// to the item.  The row's id is a fresh random identifier, so only its
/// length is known; the other binds are the two given ids, in order.
pub fn add_tag(todo_item_id: String, tag_id: String) -> (r: Request)
    ensures
        r@.sql == link_insert_sql(),
        r@.binds.len() == 3,
        r@.binds[0].len() == 36,
        r@.binds[1] == todo_item_id@,
        r@.binds[2] == tag_id@,
{
    let ghost itemv = todo_item_id@;
    let ghost tagv = tag_id@;
    let row_id = new_uuid();
    let ghost rowv = row_id@;
    let mut binds: Vec<String> = Vec::new();
    binds.push(row_id);
    binds.push(todo_item_id);
    binds.push(tag_id);
    let r = Request {
        sql: String::from_str("insert into todoItemsTags (id, todoItemId, tagId) values (?, ?, ?)"),
        binds,
    };
    proof {
        assert(r@.binds =~= seq![rowv, itemv, tagv]);
    }
    r
}

/// Builds the delete behind `remove_tag`: detach the tag from the item,
/// binds in the order (todoItemId, tagId).
pub fn remove_tag(todo_item_id: String, tag_id: String) -> (r: Request)
    ensures
        r@ == (RequestV { sql: link_delete_sql(), binds: seq![todo_item_id@, tag_id@] }),
{
    let ghost itemv = todo_item_id@;
    let ghost tagv = tag_id@;
    let mut binds: Vec<String> = Vec::new();
    binds.push(todo_item_id);
    binds.push(tag_id);
    let r = Request {
        sql: String::from_str("delete from todoItemsTags where todoItemId = ? and tagId = ?"),
        binds,
    };
    proof {
        assert(r@.binds =~= seq![itemv, tagv]);
        assert(r@ =~= RequestV { sql: link_delete_sql(), binds: seq![itemv, tagv] });
    }
    r
}

/// Builds the query that reads the tag ids attached to one item; `get`
/// of the tag module then looks each id up, and `get_tags` keeps the
/// tags that were found.
pub fn get_tags_request(todo_item_id: String) -> (r: Request)
    ensures
        r@ == (RequestV { sql: link_select_sql(), binds: seq![todo_item_id@] }),
{
    let ghost itemv = todo_item_id@;
    let mut binds: Vec<String> = Vec::new();
    binds.push(todo_item_id);
    let r = Request {
        sql: String::from_str("select tagId from todoItemsTags where todoItemId = ?"),
        binds,
    };
    proof {
        assert(r@.binds =~= seq![itemv]);
        assert(r@ =~= RequestV { sql: link_select_sql(), binds: seq![itemv] });
    }
    r
}

/// The values of a sequence of lookup results.
pub open spec fn lookups_view(lookups: Seq<Result<Tag, DbError>>) -> Seq<
    Result<TagV, crate::tag::DbErrorV>,
> {
    lookups.map_values(
        |l: Result<Tag, DbError>|
            match l {
                Ok(t) => Ok(t@),
                Err(e) => Err(e@),
            },
    )
}

/// The tags among a sequence of lookup results, in order: a lookup that
/// failed contributes nothing.
pub open spec fn found_tags(lookups: Seq<Result<TagV, crate::tag::DbErrorV>>) -> Seq<TagV>
    decreases lookups.len(),
{
    if lookups.len() == 0 {
        Seq::empty()
    } else {
        found_tags(lookups.drop_last()) + if lookups.last() is Ok {
            seq![lookups.last()->Ok_0]
        } else {
            Seq::empty()
        }
    }
}

/// Keeps the tags whose lookup succeeded, in order, as `get_tags`
/// collects them after looking up each attached tag id.
pub fn get_tags(lookups: Vec<Result<Tag, DbError>>) -> (r: Vec<Tag>)
    ensures
        crate::tag::tags_view(r@) == found_tags(lookups_view(lookups@)),
{
    let ghost lv = lookups_view(lookups@);
    let mut tags: Vec<Tag> = Vec::new();
    let mut i: usize = 0;
    while i < lookups.len()
        invariant
            i <= lookups@.len(),
            lv == lookups_view(lookups@),
            crate::tag::tags_view(tags@) == found_tags(lv.take(i as int)),
        decreases lookups@.len() - i,
    {
        let ghost pre_tags = tags@;
        proof {
            assert(lv.take(i + 1 as int).drop_last() =~= lv.take(i as int));
            assert(lv.take(i + 1 as int).last() == lv[i as int]);
            assert(lv[i as int] == (match lookups@[i as int] {
                Ok(t) => Ok(t@),
                Err(e) => Err(e@),
            }));
        }
        match &lookups[i] {
            Ok(t) => {
                let copy = t.clone();
                let ghost gcopy: Tag = copy;
                tags.push(copy);
                proof {
                    assert(found_tags(lv.take(i + 1 as int)) == found_tags(lv.take(i as int))
                        + seq![lv[i as int]->Ok_0]);
                    crate::tag::lemma_tags_view_push(pre_tags, gcopy);
                    assert(crate::tag::tags_view(tags@) =~= found_tags(lv.take(i + 1 as int)));
                }
            },
            Err(_) => {
                proof {
                    assert(found_tags(lv.take(i + 1 as int)) == found_tags(lv.take(i as int))
                        + Seq::<TagV>::empty());
                    assert(found_tags(lv.take(i + 1 as int)) =~= found_tags(lv.take(i as int)));
                }
            },
        }
        i = i + 1;
    }
    proof {
        assert(lv.take(lookups@.len() as int) =~= lv);
    }
    tags
}

} // verus!
