//! Tags: a label with a colour, attachable to to-do items.
//!
//! Each function either builds the statement that one tag operation sends
//! to the database, or decodes the rows that came back.

use crate::sql;
use crate::sql::{NamedRequest, Request, RequestV};
use vstd::prelude::*;

verus! {

/// A label entity.  Rows of the `tags` table hold exactly these three
/// columns.
#[derive(Debug)]
pub struct Tag {
    pub id: String,
    pub color: String,
    pub name: String,
}

/// The mathematical value of a `Tag`.
#[verifier::ext_equal]
pub ghost struct TagV {
    pub id: Seq<char>,
    pub color: Seq<char>,
    pub name: Seq<char>,
}

impl View for Tag {
    type V = TagV;

    open spec fn view(&self) -> TagV {
        TagV { id: self.id@, color: self.color@, name: self.name@ }
    }
}

impl Clone for Tag {
    fn clone(&self) -> (r: Self)
        ensures
            r@ == self@,
    {
        Tag { id: self.id.clone(), color: self.color.clone(), name: self.name.clone() }
    }
}

/// An error as the database layer reports it: a code and a message.
#[derive(Debug)]
pub struct DbError {
    pub code: Option<isize>,
    pub message: Option<String>,
}

/// The mathematical value of a `DbError`.
#[verifier::ext_equal]
pub ghost struct DbErrorV {
    pub code: Option<int>,
    pub message: Option<Seq<char>>,
}

impl View for DbError {
    type V = DbErrorV;

    open spec fn view(&self) -> DbErrorV {
        DbErrorV {
            code: match self.code {
                Some(c) => Some(c as int),
                None => None,
            },
            message: match self.message {
                Some(m) => Some(m@),
                None => None,
            },
        }
    }
}

/// The error that `get` returns when no row carries the asked-for id.
pub open spec fn tag_not_found() -> DbErrorV {
    DbErrorV { code: Some(1), message: Some("Tag not found"@) }
}

/// The tag one result row holds, columns in the order (id, color, name).
pub open spec fn row_tag(row: (Seq<char>, Seq<char>, Seq<char>)) -> TagV {
    TagV { id: row.0, color: row.1, name: row.2 }
}

/// The values of a sequence of result rows.
pub open spec fn rows_view(rows: Seq<(String, String, String)>) -> Seq<
    (Seq<char>, Seq<char>, Seq<char>),
> {
    rows.map_values(|r: (String, String, String)| (r.0@, r.1@, r.2@))
}

/// The values of a sequence of tags.
pub open spec fn tags_view(tags: Seq<Tag>) -> Seq<TagV> {
    tags.map_values(|t: Tag| t@)
}

pub proof fn lemma_tags_view_push(tags: Seq<Tag>, t: Tag)
    ensures
        tags_view(tags.push(t)) == tags_view(tags).push(t@),
{
    assert forall|j: int| 0 <= j < tags_view(tags.push(t)).len() implies tags_view(tags.push(t))[j]
        == tags_view(tags).push(t@)[j] by {
        if j < tags.len() {
            assert(tags_view(tags)[j] == tags[j]@);
            assert(tags.push(t)[j] == tags[j]);
        }
    }
    assert(tags_view(tags.push(t)) =~= tags_view(tags).push(t@));
}

/// The statement that reads every tag, columns in the order
/// (id, color, name).
pub open spec fn select_all_sql() -> Seq<char> {
    "select id, color, name from tags"@
}

/// The statement that reads the tag with a given id.
pub open spec fn select_one_sql() -> Seq<char> {
    "select id, color, name from tags where id = ?"@
}

/// The statement that inserts a tag, binds in the order (id, name, color).
pub open spec fn insert_sql() -> Seq<char> {
    "insert into tags (id, name, color) values (?, ?, ?)"@
}

/// The statement that deletes the tag with a given id.
pub open spec fn delete_sql() -> Seq<char> {
    "delete from tags where id = ?"@
}

/// Builds the query behind `get_all`: read every tag.
pub fn get_all_request() -> (r: Request)
    ensures
        r@ == (RequestV { sql: select_all_sql(), binds: Seq::empty() }),
{
    let r = Request {
        sql: String::from_str("select id, color, name from tags"),
        binds: Vec::new(),
    };
    proof {
        assert(r@.binds =~= Seq::<Seq<char>>::empty());
        assert(r@ =~= RequestV { sql: select_all_sql(), binds: Seq::empty() });
    }
    r
}

/// Builds the query behind `get`: read the tag with the given id.
pub fn get_request(id: String) -> (r: Request)
    ensures
        r@ == (RequestV { sql: select_one_sql(), binds: seq![id@] }),
{
    let ghost idv = id@;
    let mut binds: Vec<String> = Vec::new();
    binds.push(id);
    let r = Request {
        sql: String::from_str("select id, color, name from tags where id = ?"),
        binds,
    };
    proof {
        assert(r@.binds =~= seq![idv]);
        assert(r@ =~= RequestV { sql: select_one_sql(), binds: seq![idv] });
    }
    r
}

/// Decodes the rows the `get_all` query returned, in order.
pub fn get_all(rows: Vec<(String, String, String)>) -> (r: Vec<Tag>)
    ensures
        r@.len() == rows@.len(),
        forall|j: int| 0 <= j < rows@.len() ==> r@[j]@ == row_tag(rows_view(rows@)[j]),
{
    let ghost rv = rows_view(rows@);
    let mut tags: Vec<Tag> = Vec::new();
    let mut i: usize = 0;
    while i < rows.len()
        invariant
            i <= rows@.len(),
            rv == rows_view(rows@),
            tags@.len() == i,
            forall|j: int| 0 <= j < i ==> tags@[j]@ == row_tag(rv[j]),
        decreases rows@.len() - i,
    {
        let row = &rows[i];
        let tag = Tag { id: row.0.clone(), color: row.1.clone(), name: row.2.clone() };
        proof {
            assert(rv[i as int] == (rows@[i as int].0@, rows@[i as int].1@, rows@[i as int].2@));
        }
        tags.push(tag);
        i = i + 1;
    }
    tags
}

/// Decodes what the `get` query returned: the first row's tag, or, when
/// no row came back, the not-found error.
pub fn get(rows: Vec<(String, String, String)>) -> (r: Result<Tag, DbError>)
    ensures
        rows@.len() == 0 ==> (r matches Err(e) && e@ == tag_not_found()),
        rows@.len() > 0 ==> (r matches Ok(t) && t@ == row_tag(rows_view(rows@)[0])),
{
    if rows.len() == 0 {
        Err(
            DbError { code: Some(1), message: Some(String::from_str("Tag not found")) },
        )
    } else {
        let row = &rows[0];
        proof {
            assert(rows_view(rows@)[0] == (rows@[0].0@, rows@[0].1@, rows@[0].2@));
        }
        Ok(Tag { id: row.0.clone(), color: row.1.clone(), name: row.2.clone() })
    }
}

/// Builds the insert behind `create` and the tag it stores: the binds are
/// (id, name, color), and the returned tag carries exactly those values.
pub fn create(id: String, name: String, color: String) -> (r: (Request, Tag))
    ensures
        r.0@ == (RequestV { sql: insert_sql(), binds: seq![id@, name@, color@] }),
        r.1@ == (TagV { id: id@, color: color@, name: name@ }),
{
    let ghost idv = id@;
    let ghost namev = name@;
    let ghost colorv = color@;
    let tag = Tag { id: id.clone(), color: color.clone(), name: name.clone() };
    let mut binds: Vec<String> = Vec::new();
    binds.push(id);
    binds.push(name);
    binds.push(color);
    let request = Request {
        sql: String::from_str("insert into tags (id, name, color) values (?, ?, ?)"),
        binds,
    };
    proof {
        assert(request@.binds =~= seq![idv, namev, colorv]);
        assert(request@ =~= RequestV { sql: insert_sql(), binds: seq![idv, namev, colorv] });
    }
    (request, tag)
}

/// The optional fields of a tag update, in the order the statement
/// names them.
pub open spec fn update_fields(name: Option<Seq<char>>, color: Option<Seq<char>>) -> Seq<
    (Seq<char>, Option<Seq<char>>),
> {
    seq![("name"@, name), ("color"@, color)]
}

/// Builds the partial update behind `update`: one assignment for each
/// present field, the id bound as `:id`.
pub fn update(id: String, name: Option<String>, color: Option<String>) -> (r: NamedRequest)
    ensures
        r@.sql == sql::update_sql(
            "update tags set"@,
            update_fields(sql::opt_view(name), sql::opt_view(color)),
        ),
        r@.binds == sql::update_binds(
            id@,
            update_fields(sql::opt_view(name), sql::opt_view(color)),
        ),
{
    let ghost namev = sql::opt_view(name);
    let ghost colorv = sql::opt_view(color);
    let mut fields: Vec<(String, Option<String>)> = Vec::new();
    fields.push((String::from_str("name"), name));
    fields.push((String::from_str("color"), color));
    proof {
        assert(sql::fields_view(fields@) =~= update_fields(namev, colorv));
    }
    sql::build_update("update tags set", fields, id)
}

/// Builds the delete behind `delete`: remove the tag with the given id.
pub fn delete(id: String) -> (r: Request)
    ensures
        r@ == (RequestV { sql: delete_sql(), binds: seq![id@] }),
{
    let ghost idv = id@;
    let mut binds: Vec<String> = Vec::new();
    binds.push(id);
    let r = Request { sql: String::from_str("delete from tags where id = ?"), binds };
    proof {
        assert(r@.binds =~= seq![idv]);
        assert(r@ =~= RequestV { sql: delete_sql(), binds: seq![idv] });
    }
    r
}

} // verus!
