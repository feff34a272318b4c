//! An in-memory image of the database, one verified operation per command.
//!
//! The store holds the three tables as the schema shapes them: tags and
//! to-do items keyed by id, and the join rows that attach tags to items.
//! Each command says exactly what it does to the tables — what a row
//! insert, a keyed update, a keyed delete and the two queries mean.  The
//! well-formedness the schema enforces (unique ids) and the one invariant
//! the application maintains (completion metadata all-or-nothing) are
//! established by every operation.

use crate::tag::{lemma_tags_view_push, tags_view, Tag, TagV};
use crate::todo_item::{
    completed_item, new_item, uncompleted_item, updated_item, TodoItem, TodoItemV,
};
use vstd::prelude::*;

verus! {

/// A join row: attaches one tag to one to-do item.
#[derive(Debug)]
pub struct TodoItemTag {
    pub id: String,
    pub todo_item_id: String,
    pub tag_id: String,
}

/// The mathematical value of a `TodoItemTag`.
#[verifier::ext_equal]
pub ghost struct TodoItemTagV {
    pub id: Seq<char>,
    pub todo_item_id: Seq<char>,
    pub tag_id: Seq<char>,
}

impl View for TodoItemTag {
    type V = TodoItemTagV;

    open spec fn view(&self) -> TodoItemTagV {
        TodoItemTagV { id: self.id@, todo_item_id: self.todo_item_id@, tag_id: self.tag_id@ }
    }
}

impl Clone for TodoItemTag {
    fn clone(&self) -> (r: Self)
        ensures
            r@ == self@,
    {
        TodoItemTag {
            id: self.id.clone(),
            todo_item_id: self.todo_item_id.clone(),
            tag_id: self.tag_id.clone(),
        }
    }
}

/// The values of a sequence of to-do items.
pub open spec fn items_view(items: Seq<TodoItem>) -> Seq<TodoItemV> {
    items.map_values(|t: TodoItem| t@)
}

/// The values of a sequence of join rows.
pub open spec fn links_view(links: Seq<TodoItemTag>) -> Seq<TodoItemTagV> {
    links.map_values(|l: TodoItemTag| l@)
}

proof fn lemma_items_view_push(items: Seq<TodoItem>, t: TodoItem)
    ensures
        items_view(items.push(t)) == items_view(items).push(t@),
{
    assert forall|j: int| 0 <= j < items_view(items.push(t)).len() implies items_view(
        items.push(t),
    )[j] == items_view(items).push(t@)[j] by {
        if j < items.len() {
            assert(items_view(items)[j] == items[j]@);
            assert(items.push(t)[j] == items[j]);
        }
    }
    assert(items_view(items.push(t)) =~= items_view(items).push(t@));
}

proof fn lemma_links_view_push(links: Seq<TodoItemTag>, l: TodoItemTag)
    ensures
        links_view(links.push(l)) == links_view(links).push(l@),
{
    assert forall|j: int| 0 <= j < links_view(links.push(l)).len() implies links_view(
        links.push(l),
    )[j] == links_view(links).push(l@)[j] by {
        if j < links.len() {
            assert(links_view(links)[j] == links[j]@);
            assert(links.push(l)[j] == links[j]);
        }
    }
    assert(links_view(links.push(l)) =~= links_view(links).push(l@));
}

/// No two tag rows share an id: the table's primary key.
pub open spec fn unique_tag_ids(tags: Seq<TagV>) -> bool {
    forall|i: int, j: int|
        0 <= i < j < tags.len() ==> (#[trigger] tags[i].id) != (#[trigger] tags[j].id)
}

/// No two item rows share an id: the table's primary key.
pub open spec fn unique_item_ids(items: Seq<TodoItemV>) -> bool {
    forall|i: int, j: int|
        0 <= i < j < items.len() ==> (#[trigger] items[i].id) != (#[trigger] items[j].id)
}

/// No two join rows share an id: the table's primary key.
pub open spec fn unique_link_ids(links: Seq<TodoItemTagV>) -> bool {
    forall|i: int, j: int|
        0 <= i < j < links.len() ==> (#[trigger] links[i].id) != (#[trigger] links[j].id)
}

/// Every item's completion metadata is all-or-nothing.
pub open spec fn items_well_formed(items: Seq<TodoItemV>) -> bool {
    forall|i: int| 0 <= i < items.len() ==> (#[trigger] items[i]).well_formed()
}

/// The three tables, in insertion order.
#[derive(Debug)]
pub struct Store {
    pub tags: Vec<Tag>,
    pub todo_items: Vec<TodoItem>,
    pub links: Vec<TodoItemTag>,
}

/// The mathematical value of a `Store`.
#[verifier::ext_equal]
pub ghost struct StoreV {
    pub tags: Seq<TagV>,
    pub todo_items: Seq<TodoItemV>,
    pub links: Seq<TodoItemTagV>,
}

impl View for Store {
    type V = StoreV;

    open spec fn view(&self) -> StoreV {
        StoreV {
            tags: tags_view(self.tags@),
            todo_items: items_view(self.todo_items@),
            links: links_view(self.links@),
        }
    }
}

impl StoreV {
    /// Some tag row carries this id.
    pub open spec fn has_tag(self, id: Seq<char>) -> bool {
        exists|k: int| 0 <= k < self.tags.len() && (#[trigger] self.tags[k].id) == id
    }

    /// Some item row carries this id.
    pub open spec fn has_todo_item(self, id: Seq<char>) -> bool {
        exists|k: int| 0 <= k < self.todo_items.len() && (#[trigger] self.todo_items[k].id) == id
    }

    /// Some join row carries this id.
    pub open spec fn has_link(self, id: Seq<char>) -> bool {
        exists|k: int| 0 <= k < self.links.len() && (#[trigger] self.links[k].id) == id
    }

    /// What the schema and the application guarantee of every state: each
    /// table's ids are unique (its primary key), and every item's
    /// completion metadata is all-or-nothing.
    pub open spec fn wf(self) -> bool {
        &&& unique_tag_ids(self.tags)
        &&& unique_item_ids(self.todo_items)
        &&& unique_link_ids(self.links)
        &&& items_well_formed(self.todo_items)
    }
}

proof fn lemma_unique_tags_push(tags: Seq<TagV>, t: TagV)
    requires
        unique_tag_ids(tags),
        forall|k: int| 0 <= k < tags.len() ==> (#[trigger] tags[k].id) != t.id,
    ensures
        unique_tag_ids(tags.push(t)),
{
    assert forall|i: int, j: int| 0 <= i < j < tags.push(t).len() implies (#[trigger] tags.push(
        t,
    )[i].id) != (#[trigger] tags.push(t)[j].id) by {
        if j < tags.len() {
            assert(tags[i].id != tags[j].id);
        } else {
            assert(tags.push(t)[j] == t);
            assert(tags[i].id != t.id);
        }
    }
}

proof fn lemma_unique_items_push(items: Seq<TodoItemV>, t: TodoItemV)
    requires
        unique_item_ids(items),
        forall|k: int| 0 <= k < items.len() ==> (#[trigger] items[k].id) != t.id,
    ensures
        unique_item_ids(items.push(t)),
{
    assert forall|i: int, j: int| 0 <= i < j < items.push(t).len() implies (#[trigger] items.push(
        t,
    )[i].id) != (#[trigger] items.push(t)[j].id) by {
        if j < items.len() {
            assert(items[i].id != items[j].id);
        } else {
            assert(items.push(t)[j] == t);
            assert(items[i].id != t.id);
        }
    }
}

proof fn lemma_unique_links_push(links: Seq<TodoItemTagV>, l: TodoItemTagV)
    requires
        unique_link_ids(links),
        forall|k: int| 0 <= k < links.len() ==> (#[trigger] links[k].id) != l.id,
    ensures
        unique_link_ids(links.push(l)),
{
    assert forall|i: int, j: int| 0 <= i < j < links.push(l).len() implies (#[trigger] links.push(
        l,
    )[i].id) != (#[trigger] links.push(l)[j].id) by {
        if j < links.len() {
            assert(links[i].id != links[j].id);
        } else {
            assert(links.push(l)[j] == l);
            assert(links[i].id != l.id);
        }
    }
}

/// The tag rows left after deleting one id.
pub open spec fn tags_without(tags: Seq<TagV>, id: Seq<char>) -> Seq<TagV>
    decreases tags.len(),
{
    if tags.len() == 0 {
        Seq::empty()
    } else {
        tags_without(tags.drop_last(), id) + if tags.last().id == id {
            Seq::empty()
        } else {
            seq![tags.last()]
        }
    }
}

/// One tag row after a keyed update: each present field replaced when the
/// id matches, the row untouched otherwise.
pub open spec fn tag_updated(
    t: TagV,
    id: Seq<char>,
    name: Option<Seq<char>>,
    color: Option<Seq<char>>,
) -> TagV {
    if t.id == id {
        TagV {
            name: match name {
                Some(v) => v,
                None => t.name,
            },
            color: match color {
                Some(v) => v,
                None => t.color,
            },
            ..t
        }
    } else {
        t
    }
}

impl Store {
    /// An empty store: the state right after the schema is created.
    pub fn new() -> (r: Store)
        ensures
            r@.wf(),
            r@.tags == Seq::<TagV>::empty(),
            r@.todo_items == Seq::<TodoItemV>::empty(),
            r@.links == Seq::<TodoItemTagV>::empty(),
    {
        let r = Store { tags: Vec::new(), todo_items: Vec::new(), links: Vec::new() };
        proof {
            assert(r@.tags =~= Seq::<TagV>::empty());
            assert(r@.todo_items =~= Seq::<TodoItemV>::empty());
            assert(r@.links =~= Seq::<TodoItemTagV>::empty());
        }
        r
    }

    /// Whether some tag row carries this id.
    pub fn has_tag(&self, id: &String) -> (r: bool)
        ensures
            r == self@.has_tag(id@),
    {
        let mut i: usize = 0;
        while i < self.tags.len()
            invariant
                i <= self.tags@.len(),
                forall|j: int| 0 <= j < i ==> (#[trigger] self@.tags[j].id) != id@,
            decreases self.tags@.len() - i,
        {
            proof {
                assert(self@.tags[i as int] == self.tags@[i as int]@);
            }
            if self.tags[i].id == *id {
                proof {
                    assert(self@.tags[i as int].id == id@);
                }
                return true;
            }
            i = i + 1;
        }
        false
    }

    /// Whether some item row carries this id.
    pub fn has_todo_item(&self, id: &String) -> (r: bool)
        ensures
            r == self@.has_todo_item(id@),
    {
        let mut i: usize = 0;
        while i < self.todo_items.len()
            invariant
                i <= self.todo_items@.len(),
                forall|j: int| 0 <= j < i ==> (#[trigger] self@.todo_items[j].id) != id@,
            decreases self.todo_items@.len() - i,
        {
            proof {
                assert(self@.todo_items[i as int] == self.todo_items@[i as int]@);
            }
            if self.todo_items[i].id == *id {
                proof {
                    assert(self@.todo_items[i as int].id == id@);
                }
                return true;
            }
            i = i + 1;
        }
        false
    }

    /// Whether some join row carries this id.
    pub fn has_link(&self, id: &String) -> (r: bool)
        ensures
            r == self@.has_link(id@),
    {
        let mut i: usize = 0;
        while i < self.links.len()
            invariant
                i <= self.links@.len(),
                forall|j: int| 0 <= j < i ==> (#[trigger] self@.links[j].id) != id@,
            decreases self.links@.len() - i,
        {
            proof {
                assert(self@.links[i as int] == self.links@[i as int]@);
            }
            if self.links[i].id == *id {
                proof {
                    assert(self@.links[i as int].id == id@);
                }
                return true;
            }
            i = i + 1;
        }
        false
    }

    /// Every tag, in insertion order, as the command behind the tag list
    /// reads it.
    pub fn get_tags(&self) -> (r: Vec<Tag>)
        ensures
            tags_view(r@) == self@.tags,
    {
        let mut out: Vec<Tag> = Vec::new();
        let mut i: usize = 0;
        while i < self.tags.len()
            invariant
                i <= self.tags@.len(),
                out@.len() == i,
                forall|j: int| 0 <= j < i ==> (#[trigger] out@[j])@ == self@.tags[j],
            decreases self.tags@.len() - i,
        {
            proof {
                assert(self@.tags[i as int] == self.tags@[i as int]@);
            }
            out.push(self.tags[i].clone());
            i = i + 1;
        }
        proof {
            assert forall|j: int| 0 <= j < out@.len() implies tags_view(out@)[j] == self@.tags[j] by {
                assert(tags_view(out@)[j] == out@[j]@);
            }
            assert(tags_view(out@) =~= self@.tags);
        }
        out
    }

    /// Stores a fresh tag row and returns the tag, exactly as given.  The
    /// id must be fresh: inserting a duplicate key is refused by the
    /// database engine, so the caller checks with `has_tag` first.
    pub fn create_tag(&mut self, id: String, name: String, color: String) -> (r: Tag)
        requires
            old(self)@.wf(),
            !old(self)@.has_tag(id@),
        ensures
            final(self)@.wf(),
            final(self)@.tags == old(self)@.tags.push(
                TagV { id: id@, color: color@, name: name@ },
            ),
            final(self)@.todo_items == old(self)@.todo_items,
            final(self)@.links == old(self)@.links,
            r@ == (TagV { id: id@, color: color@, name: name@ }),
    {
        let ghost tv = TagV { id: id@, color: color@, name: name@ };
        let tag = Tag { id: id.clone(), color: color.clone(), name: name.clone() };
        let copy = tag.clone();
        let ghost pre = self.tags@;
        let ghost gtag: Tag = tag;
        self.tags.push(tag);
        proof {
            lemma_tags_view_push(pre, gtag);
            assert(final(self)@.tags == old(self)@.tags.push(tv));
            assert forall|k: int| 0 <= k < old(self)@.tags.len() implies (#[trigger] old(self)@.tags[k].id)
                != tv.id by {
                assert(!old(self)@.has_tag(id@));
            }
            lemma_unique_tags_push(old(self)@.tags, tv);
        }
        copy
    }

    /// Applies a partial update to the tag table: the row carrying the id
    /// takes each present field, every other row is untouched.  No row is
    /// added or removed; an absent id updates nothing.  Exactly one field
    /// must be present: the statement the update builds separates
    /// assignments with spaces alone, and the database engine parses it
    /// only then.
    pub fn update_tag(&mut self, id: String, name: Option<String>, color: Option<String>)
        requires
            old(self)@.wf(),
            (name is Some) != (color is Some),
        ensures
            final(self)@.wf(),
            final(self)@.tags.len() == old(self)@.tags.len(),
            forall|j: int|
                0 <= j < old(self)@.tags.len() ==> (#[trigger] final(self)@.tags[j]) == tag_updated(
                    old(self)@.tags[j],
                    id@,
                    crate::sql::opt_view(name),
                    crate::sql::opt_view(color),
                ),
            final(self)@.todo_items == old(self)@.todo_items,
            final(self)@.links == old(self)@.links,
    {
        let ghost namev = crate::sql::opt_view(name);
        let ghost colorv = crate::sql::opt_view(color);
        let ghost tv = tags_view(self.tags@);
        let mut out: Vec<Tag> = Vec::new();
        let mut i: usize = 0;
        while i < self.tags.len()
            invariant
                i <= self.tags@.len(),
                tv == tags_view(self.tags@),
                namev == crate::sql::opt_view(name),
                colorv == crate::sql::opt_view(color),
                out@.len() == i,
                forall|j: int|
                    0 <= j < i ==> (#[trigger] out@[j])@ == tag_updated(tv[j], id@, namev, colorv),
            decreases self.tags@.len() - i,
        {
            proof {
                assert(tv[i as int] == self.tags@[i as int]@);
            }
            let t = &self.tags[i];
            if t.id == id {
                let new_name = match &name {
                    Some(v) => v.clone(),
                    None => t.name.clone(),
                };
                let new_color = match &color {
                    Some(v) => v.clone(),
                    None => t.color.clone(),
                };
                proof {
                    assert(tv[i as int].id == id@);
                    assert(new_name@ == (match namev {
                        Some(v) => v,
                        None => tv[i as int].name,
                    }));
                    assert(new_color@ == (match colorv {
                        Some(v) => v,
                        None => tv[i as int].color,
                    }));
                }
                out.push(Tag { id: t.id.clone(), color: new_color, name: new_name });
            } else {
                out.push(t.clone());
            }
            proof {
                assert(out@[i as int]@ == tag_updated(tv[i as int], id@, namev, colorv));
            }
            i = i + 1;
        }
        self.tags = out;
        proof {
            assert forall|j: int|
                0 <= j < old(self)@.tags.len() implies (#[trigger] final(self)@.tags[j])
                == tag_updated(old(self)@.tags[j], id@, namev, colorv) by {
                assert(final(self)@.tags[j] == self.tags@[j]@);
                assert(old(self)@.tags[j] == tv[j]);
            }
            assert forall|i2: int, j2: int|
                0 <= i2 < j2 < final(self)@.tags.len() implies (
            #[trigger] final(self)@.tags[i2].id) != (#[trigger] final(self)@.tags[j2].id) by {
                assert(old(self)@.tags[i2].id != old(self)@.tags[j2].id);
                assert(final(self)@.tags[i2] == tag_updated(old(self)@.tags[i2], id@, namev, colorv));
                assert(final(self)@.tags[j2] == tag_updated(old(self)@.tags[j2], id@, namev, colorv));
            }
        }
    }

    /// Deletes every tag row carrying the id; an absent id deletes
    /// nothing.  Join rows that reference the tag stay: cascading delete
    /// is not implemented.
    pub fn delete_tag(&mut self, id: String)
        requires
            old(self)@.wf(),
        ensures
            final(self)@.wf(),
            final(self)@.tags == tags_without(old(self)@.tags, id@),
            final(self)@.todo_items == old(self)@.todo_items,
            final(self)@.links == old(self)@.links,
    {
        let ghost tv = tags_view(self.tags@);
        let mut out: Vec<Tag> = Vec::new();
        let mut i: usize = 0;
        while i < self.tags.len()
            invariant
                i <= self.tags@.len(),
                tv == tags_view(self.tags@),
                tags_view(out@) == tags_without(tv.take(i as int), id@),
            decreases self.tags@.len() - i,
        {
            let ghost pre_out = out@;
            proof {
                assert(tv.take(i + 1 as int).drop_last() =~= tv.take(i as int));
                assert(tv.take(i + 1 as int).last() == tv[i as int]);
                assert(tv[i as int] == self.tags@[i as int]@);
            }
            let t = &self.tags[i];
            if t.id == id {
                proof {
                    assert(tags_without(tv.take(i + 1 as int), id@) == tags_without(
                        tv.take(i as int),
                        id@,
                    ) + Seq::<TagV>::empty());
                    assert(tags_without(tv.take(i + 1 as int), id@) =~= tags_without(
                        tv.take(i as int),
                        id@,
                    ));
                }
            } else {
                let copy = t.clone();
                let ghost gcopy: Tag = copy;
                out.push(copy);
                proof {
                    assert(tags_without(tv.take(i + 1 as int), id@) == tags_without(
                        tv.take(i as int),
                        id@,
                    ) + seq![tv[i as int]]);
                    lemma_tags_view_push(pre_out, gcopy);
                    assert(tags_view(out@) =~= tags_without(tv.take(i + 1 as int), id@));
                }
            }
            i = i + 1;
        }
        proof {
            assert(tv.take(self.tags@.len() as int) =~= tv);
        }
        self.tags = out;
        proof {
            lemma_tags_without_wf(old(self)@.tags, id@);
        }
    }
}

/// Deleting by id keeps what uniqueness the table had: the rows that stay
/// are a subsequence of the rows that were there.
proof fn lemma_tags_without_wf(tags: Seq<TagV>, id: Seq<char>)
    requires
        unique_tag_ids(tags),
    ensures
        unique_tag_ids(tags_without(tags, id)),
    decreases tags.len(),
{
    if tags.len() > 0 {
        lemma_tags_without_wf(tags.drop_last(), id);
        let rest = tags_without(tags.drop_last(), id);
        assert forall|k: int| 0 <= k < rest.len() implies exists|m: int|
            0 <= m < tags.drop_last().len() && (#[trigger] rest[k]) == tags.drop_last()[m] by {
            lemma_tags_without_membership(tags.drop_last(), id, k);
        }
        assert forall|i: int, j: int|
            0 <= i < j < tags_without(tags, id).len() implies (#[trigger] tags_without(
            tags,
            id,
        )[i].id) != (#[trigger] tags_without(tags, id)[j].id) by {
            if j < rest.len() {
                assert(tags_without(tags, id)[i] == rest[i]);
                assert(tags_without(tags, id)[j] == rest[j]);
                assert(unique_tag_ids(rest));
                assert(rest[i].id != rest[j].id);
            } else {
                assert(tags_without(tags, id)[j] == tags.last());
                assert(tags_without(tags, id)[i] == rest[i]);
                let m = choose|m: int|
                    0 <= m < tags.drop_last().len() && (#[trigger] rest[i]) == tags.drop_last()[m];
                assert(tags[m].id != tags[tags.len() - 1].id);
            }
        }
    }
}

/// The item rows left after deleting one id.
pub open spec fn items_without(items: Seq<TodoItemV>, id: Seq<char>) -> Seq<TodoItemV>
    decreases items.len(),
{
    if items.len() == 0 {
        Seq::empty()
    } else {
        items_without(items.drop_last(), id) + if items.last().id == id {
            Seq::empty()
        } else {
            seq![items.last()]
        }
    }
}

/// The join rows left after detaching one tag from one item: a row goes
/// exactly when it carries both ids.
pub open spec fn links_without(
    links: Seq<TodoItemTagV>,
    todo_item_id: Seq<char>,
    tag_id: Seq<char>,
) -> Seq<TodoItemTagV>
    decreases links.len(),
{
    if links.len() == 0 {
        Seq::empty()
    } else {
        links_without(links.drop_last(), todo_item_id, tag_id) + if links.last().todo_item_id
            == todo_item_id && links.last().tag_id == tag_id {
            Seq::empty()
        } else {
            seq![links.last()]
        }
    }
}

/// One item row after a keyed completion: marked completed with the given
/// metadata when the id matches, untouched otherwise.
pub open spec fn item_completed(
    t: TodoItemV,
    id: Seq<char>,
    date: Seq<char>,
    time: Seq<char>,
    timezone: Seq<char>,
) -> TodoItemV {
    if t.id == id {
        completed_item(t, date, time, timezone)
    } else {
        t
    }
}

/// One item row after a keyed uncompletion: marked not completed with the
/// metadata cleared when the id matches, untouched otherwise.
pub open spec fn item_uncompleted(t: TodoItemV, id: Seq<char>) -> TodoItemV {
    if t.id == id {
        uncompleted_item(t)
    } else {
        t
    }
}

/// One item row after a keyed partial update: each present field replaced
/// when the id matches, the row untouched otherwise.
pub open spec fn item_updated(
    t: TodoItemV,
    id: Seq<char>,
    title: Option<Seq<char>>,
    description: Option<Seq<char>>,
    notes: Option<Seq<char>>,
) -> TodoItemV {
    if t.id == id {
        updated_item(t, title, description, notes)
    } else {
        t
    }
}

/// The items visible for one date, as the where clause of the item query
/// selects them: completed on that date, or not completed at all.
pub open spec fn visible_items(items: Seq<TodoItemV>, date: Seq<char>) -> Seq<TodoItemV>
    decreases items.len(),
{
    if items.len() == 0 {
        Seq::empty()
    } else {
        visible_items(items.drop_last(), date) + if items.last().date_completed == Some(date)
            || items.last().date_completed is None {
            seq![items.last()]
        } else {
            Seq::empty()
        }
    }
}

/// The first tag row carrying an id, as the keyed tag query reads it;
/// under unique ids it is the only one.
pub open spec fn find_tag(tags: Seq<TagV>, id: Seq<char>) -> Option<TagV>
    decreases tags.len(),
{
    if tags.len() == 0 {
        None
    } else if tags[0].id == id {
        Some(tags[0])
    } else {
        find_tag(tags.drop_first(), id)
    }
}

/// The tags attached to one item, in the order of the join rows: for each
/// join row carrying the item's id, the tag it references — skipped when
/// the tag is gone, since join rows may outlive their tag.
pub open spec fn item_tags(
    links: Seq<TodoItemTagV>,
    tags: Seq<TagV>,
    todo_item_id: Seq<char>,
) -> Seq<TagV>
    decreases links.len(),
{
    if links.len() == 0 {
        Seq::empty()
    } else {
        item_tags(links.drop_last(), tags, todo_item_id) + (
        if links.last().todo_item_id == todo_item_id {
            match find_tag(tags, links.last().tag_id) {
                Some(t) => seq![t],
                None => Seq::empty(),
            }
        } else {
            Seq::empty()
        })
    }
}

/// The first tag in the table carrying this id, copied out.
fn find_tag_row(tags: &Vec<Tag>, id: &String) -> (r: Option<Tag>)
    ensures
        (r is Some) == (find_tag(tags_view(tags@), id@) is Some),
        r matches Some(t) ==> Some(t@) == find_tag(tags_view(tags@), id@),
{
    let ghost tv = tags_view(tags@);
    proof {
        assert(tv.skip(0) =~= tv);
    }
    let mut i: usize = 0;
    while i < tags.len()
        invariant
            i <= tags@.len(),
            tv == tags_view(tags@),
            find_tag(tv, id@) == find_tag(tv.skip(i as int), id@),
        decreases tags@.len() - i,
    {
        proof {
            assert(tv[i as int] == tags@[i as int]@);
            assert(tv.skip(i as int)[0] == tv[i as int]);
            assert(tv.skip(i as int).drop_first() =~= tv.skip(i + 1 as int));
        }
        if tags[i].id == *id {
            proof {
                assert(find_tag(tv.skip(i as int), id@) == Some(tv[i as int]));
            }
            return Some(tags[i].clone());
        }
        i = i + 1;
    }
    proof {
        assert(tv.skip(tags@.len() as int) =~= Seq::<TagV>::empty());
    }
    None
}

impl Store {
    /// The items visible for one date, in insertion order, as the command
    /// behind the item list reads them: those completed on that date, and
    /// those not completed at all.
    pub fn get_todo_items(&self, date_completed: &String) -> (r: Vec<TodoItem>)
        ensures
            items_view(r@) == visible_items(self@.todo_items, date_completed@),
    {
        let ghost iv = items_view(self.todo_items@);
        let ghost datev = date_completed@;
        let mut out: Vec<TodoItem> = Vec::new();
        let mut i: usize = 0;
        while i < self.todo_items.len()
            invariant
                i <= self.todo_items@.len(),
                iv == items_view(self.todo_items@),
                datev == date_completed@,
                items_view(out@) == visible_items(iv.take(i as int), datev),
            decreases self.todo_items@.len() - i,
        {
            let ghost pre_out = out@;
            proof {
                assert(iv.take(i + 1 as int).drop_last() =~= iv.take(i as int));
                assert(iv.take(i + 1 as int).last() == iv[i as int]);
                assert(iv[i as int] == self.todo_items@[i as int]@);
            }
            let t = &self.todo_items[i];
            let visible = match &t.date_completed {
                Some(d) => *d == *date_completed,
                None => true,
            };
            if visible {
                let copy = t.clone();
                let ghost gcopy: TodoItem = copy;
                out.push(copy);
                proof {
                    assert(visible_items(iv.take(i + 1 as int), datev) == visible_items(
                        iv.take(i as int),
                        datev,
                    ) + seq![iv[i as int]]);
                    lemma_items_view_push(pre_out, gcopy);
                    assert(items_view(out@) =~= visible_items(iv.take(i + 1 as int), datev));
                }
            } else {
                proof {
                    assert(visible_items(iv.take(i + 1 as int), datev) == visible_items(
                        iv.take(i as int),
                        datev,
                    ) + Seq::<TodoItemV>::empty());
                    assert(visible_items(iv.take(i + 1 as int), datev) =~= visible_items(
                        iv.take(i as int),
                        datev,
                    ));
                }
            }
            i = i + 1;
        }
        proof {
            assert(iv.take(self.todo_items@.len() as int) =~= iv);
        }
        out
    }

    /// Stores a fresh item row and returns the item: not completed, with
    /// exactly the given fields.  The id must be fresh: inserting a
    /// duplicate key is refused by the database engine, so the caller
    /// checks with `has_todo_item` first.
    pub fn create_todo_item(
        &mut self,
        id: String,
        title: String,
        date_created: String,
        time_created: String,
        timezone_created: String,
    ) -> (r: TodoItem)
        requires
            old(self)@.wf(),
            !old(self)@.has_todo_item(id@),
        ensures
            final(self)@.wf(),
            final(self)@.todo_items == old(self)@.todo_items.push(
                new_item(id@, title@, date_created@, time_created@, timezone_created@),
            ),
            final(self)@.tags == old(self)@.tags,
            final(self)@.links == old(self)@.links,
            r@ == new_item(id@, title@, date_created@, time_created@, timezone_created@),
    {
        let ghost nv = new_item(id@, title@, date_created@, time_created@, timezone_created@);
        let item = TodoItem {
            id: id.clone(),
            title: title.clone(),
            description: None,
            notes: None,
            is_completed: false,
            date_completed: None,
            time_completed: None,
            timezone_completed: None,
            date_created: date_created.clone(),
            time_created: time_created.clone(),
            timezone_created: timezone_created.clone(),
        };
        let copy = item.clone();
        let ghost pre = self.todo_items@;
        let ghost gitem: TodoItem = item;
        self.todo_items.push(item);
        proof {
            lemma_items_view_push(pre, gitem);
            assert(final(self)@.todo_items == old(self)@.todo_items.push(nv));
            assert forall|k: int| 0 <= k < old(self)@.todo_items.len() implies (#[trigger] old(self)@.todo_items[k].id)
                != nv.id by {
                assert(!old(self)@.has_todo_item(id@));
            }
            lemma_unique_items_push(old(self)@.todo_items, nv);
            assert forall|k: int|
                0 <= k < final(self)@.todo_items.len() implies (
            #[trigger] final(self)@.todo_items[k]).well_formed() by {
                if k < old(self)@.todo_items.len() {
                    assert(old(self)@.todo_items[k].well_formed());
                    assert(final(self)@.todo_items[k] == old(self)@.todo_items.push(nv)[k]);
                } else {
                    assert(final(self)@.todo_items[k] == nv);
                }
            }
        }
        copy
    }

    /// Marks the item carrying the id completed with the given metadata;
    /// every other row, and an absent id, is untouched.
    pub fn complete_todo_item(
        &mut self,
        id: String,
        date_completed: String,
        time_completed: String,
        timezone_completed: String,
    )
        requires
            old(self)@.wf(),
        ensures
            final(self)@.wf(),
            final(self)@.todo_items.len() == old(self)@.todo_items.len(),
            forall|j: int|
                0 <= j < old(self)@.todo_items.len() ==> (#[trigger] final(self)@.todo_items[j])
                    == item_completed(
                    old(self)@.todo_items[j],
                    id@,
                    date_completed@,
                    time_completed@,
                    timezone_completed@,
                ),
            final(self)@.tags == old(self)@.tags,
            final(self)@.links == old(self)@.links,
    {
        let ghost iv = items_view(self.todo_items@);
        let ghost datev = date_completed@;
        let ghost timev = time_completed@;
        let ghost tzv = timezone_completed@;
        let mut out: Vec<TodoItem> = Vec::new();
        let mut i: usize = 0;
        while i < self.todo_items.len()
            invariant
                i <= self.todo_items@.len(),
                iv == items_view(self.todo_items@),
                datev == date_completed@,
                timev == time_completed@,
                tzv == timezone_completed@,
                out@.len() == i,
                forall|j: int|
                    0 <= j < i ==> (#[trigger] out@[j])@ == item_completed(
                        iv[j],
                        id@,
                        datev,
                        timev,
                        tzv,
                    ),
            decreases self.todo_items@.len() - i,
        {
            proof {
                assert(iv[i as int] == self.todo_items@[i as int]@);
            }
            let t = &self.todo_items[i];
            if t.id == id {
                let mut c = t.clone();
                c.is_completed = true;
                c.date_completed = Some(date_completed.clone());
                c.time_completed = Some(time_completed.clone());
                c.timezone_completed = Some(timezone_completed.clone());
                out.push(c);
            } else {
                out.push(t.clone());
            }
            proof {
                assert(out@[i as int]@ == item_completed(iv[i as int], id@, datev, timev, tzv));
            }
            i = i + 1;
        }
        self.todo_items = out;
        proof {
            assert forall|j: int|
                0 <= j < old(self)@.todo_items.len() implies (#[trigger] final(self)@.todo_items[j])
                == item_completed(old(self)@.todo_items[j], id@, datev, timev, tzv) by {
                assert(final(self)@.todo_items[j] == self.todo_items@[j]@);
                assert(old(self)@.todo_items[j] == iv[j]);
            }
            assert forall|i2: int, j2: int|
                0 <= i2 < j2 < final(self)@.todo_items.len() implies (
            #[trigger] final(self)@.todo_items[i2].id) != (
            #[trigger] final(self)@.todo_items[j2].id) by {
                assert(old(self)@.todo_items[i2].id != old(self)@.todo_items[j2].id);
                assert(final(self)@.todo_items[i2] == item_completed(
                    old(self)@.todo_items[i2],
                    id@,
                    datev,
                    timev,
                    tzv,
                ));
                assert(final(self)@.todo_items[j2] == item_completed(
                    old(self)@.todo_items[j2],
                    id@,
                    datev,
                    timev,
                    tzv,
                ));
            }
            assert forall|k: int|
                0 <= k < final(self)@.todo_items.len() implies (
            #[trigger] final(self)@.todo_items[k]).well_formed() by {
                assert(old(self)@.todo_items[k].well_formed());
                assert(final(self)@.todo_items[k] == item_completed(
                    old(self)@.todo_items[k],
                    id@,
                    datev,
                    timev,
                    tzv,
                ));
            }
        }
    }

    /// Marks the item carrying the id not completed and clears its
    /// completion metadata; every other row, and an absent id, is
    /// untouched.
    pub fn uncomplete_todo_item(&mut self, id: String)
        requires
            old(self)@.wf(),
        ensures
            final(self)@.wf(),
            final(self)@.todo_items.len() == old(self)@.todo_items.len(),
            forall|j: int|
                0 <= j < old(self)@.todo_items.len() ==> (#[trigger] final(self)@.todo_items[j])
                    == item_uncompleted(old(self)@.todo_items[j], id@),
            final(self)@.tags == old(self)@.tags,
            final(self)@.links == old(self)@.links,
    {
        let ghost iv = items_view(self.todo_items@);
        let mut out: Vec<TodoItem> = Vec::new();
        let mut i: usize = 0;
        while i < self.todo_items.len()
            invariant
                i <= self.todo_items@.len(),
                iv == items_view(self.todo_items@),
                out@.len() == i,
                forall|j: int| 0 <= j < i ==> (#[trigger] out@[j])@ == item_uncompleted(iv[j], id@),
            decreases self.todo_items@.len() - i,
        {
            proof {
                assert(iv[i as int] == self.todo_items@[i as int]@);
            }
            let t = &self.todo_items[i];
            if t.id == id {
                let mut c = t.clone();
                c.is_completed = false;
                c.date_completed = None;
                c.time_completed = None;
                c.timezone_completed = None;
                out.push(c);
            } else {
                out.push(t.clone());
            }
            proof {
                assert(out@[i as int]@ == item_uncompleted(iv[i as int], id@));
            }
            i = i + 1;
        }
        self.todo_items = out;
        proof {
            assert forall|j: int|
                0 <= j < old(self)@.todo_items.len() implies (#[trigger] final(self)@.todo_items[j])
                == item_uncompleted(old(self)@.todo_items[j], id@) by {
                assert(final(self)@.todo_items[j] == self.todo_items@[j]@);
                assert(old(self)@.todo_items[j] == iv[j]);
            }
            assert forall|i2: int, j2: int|
                0 <= i2 < j2 < final(self)@.todo_items.len() implies (
            #[trigger] final(self)@.todo_items[i2].id) != (
            #[trigger] final(self)@.todo_items[j2].id) by {
                assert(old(self)@.todo_items[i2].id != old(self)@.todo_items[j2].id);
                assert(final(self)@.todo_items[i2] == item_uncompleted(
                    old(self)@.todo_items[i2],
                    id@,
                ));
                assert(final(self)@.todo_items[j2] == item_uncompleted(
                    old(self)@.todo_items[j2],
                    id@,
                ));
            }
            assert forall|k: int|
                0 <= k < final(self)@.todo_items.len() implies (
            #[trigger] final(self)@.todo_items[k]).well_formed() by {
                assert(old(self)@.todo_items[k].well_formed());
                assert(final(self)@.todo_items[k] == item_uncompleted(
                    old(self)@.todo_items[k],
                    id@,
                ));
            }
        }
    }

    /// Applies a partial update to the item table: the row carrying the id
    /// takes each present field, every other row is untouched.  Exactly one
    /// field must be present: the statement the update builds separates
    /// assignments with spaces alone, and the database engine parses it
    /// only then.
    pub fn update_todo_item(
        &mut self,
        id: String,
        title: Option<String>,
        description: Option<String>,
        notes: Option<String>,
    )
        requires
            old(self)@.wf(),
            ({
                let n = (if title is Some { 1int } else { 0int }) + (if description is Some {
                    1int
                } else {
                    0int
                }) + (if notes is Some { 1int } else { 0int });
                n == 1
            }),
        ensures
            final(self)@.wf(),
            final(self)@.todo_items.len() == old(self)@.todo_items.len(),
            forall|j: int|
                0 <= j < old(self)@.todo_items.len() ==> (#[trigger] final(self)@.todo_items[j])
                    == item_updated(
                    old(self)@.todo_items[j],
                    id@,
                    crate::sql::opt_view(title),
                    crate::sql::opt_view(description),
                    crate::sql::opt_view(notes),
                ),
            final(self)@.tags == old(self)@.tags,
            final(self)@.links == old(self)@.links,
    {
        let ghost iv = items_view(self.todo_items@);
        let ghost titlev = crate::sql::opt_view(title);
        let ghost descv = crate::sql::opt_view(description);
        let ghost notesv = crate::sql::opt_view(notes);
        let mut out: Vec<TodoItem> = Vec::new();
        let mut i: usize = 0;
        while i < self.todo_items.len()
            invariant
                i <= self.todo_items@.len(),
                iv == items_view(self.todo_items@),
                titlev == crate::sql::opt_view(title),
                descv == crate::sql::opt_view(description),
                notesv == crate::sql::opt_view(notes),
                out@.len() == i,
                forall|j: int|
                    0 <= j < i ==> (#[trigger] out@[j])@ == item_updated(
                        iv[j],
                        id@,
                        titlev,
                        descv,
                        notesv,
                    ),
            decreases self.todo_items@.len() - i,
        {
            proof {
                assert(iv[i as int] == self.todo_items@[i as int]@);
            }
            let t = &self.todo_items[i];
            if t.id == id {
                let mut c = t.clone();
                c.title = match &title {
                    Some(v) => v.clone(),
                    None => c.title,
                };
                c.description = match &description {
                    Some(v) => Some(v.clone()),
                    None => c.description,
                };
                c.notes = match &notes {
                    Some(v) => Some(v.clone()),
                    None => c.notes,
                };
                out.push(c);
            } else {
                out.push(t.clone());
            }
            proof {
                assert(out@[i as int]@ == item_updated(iv[i as int], id@, titlev, descv, notesv));
            }
            i = i + 1;
        }
        self.todo_items = out;
        proof {
            assert forall|j: int|
                0 <= j < old(self)@.todo_items.len() implies (#[trigger] final(self)@.todo_items[j])
                == item_updated(old(self)@.todo_items[j], id@, titlev, descv, notesv) by {
                assert(final(self)@.todo_items[j] == self.todo_items@[j]@);
                assert(old(self)@.todo_items[j] == iv[j]);
            }
            assert forall|i2: int, j2: int|
                0 <= i2 < j2 < final(self)@.todo_items.len() implies (
            #[trigger] final(self)@.todo_items[i2].id) != (
            #[trigger] final(self)@.todo_items[j2].id) by {
                assert(old(self)@.todo_items[i2].id != old(self)@.todo_items[j2].id);
                assert(final(self)@.todo_items[i2] == item_updated(
                    old(self)@.todo_items[i2],
                    id@,
                    titlev,
                    descv,
                    notesv,
                ));
                assert(final(self)@.todo_items[j2] == item_updated(
                    old(self)@.todo_items[j2],
                    id@,
                    titlev,
                    descv,
                    notesv,
                ));
            }
            assert forall|k: int|
                0 <= k < final(self)@.todo_items.len() implies (
            #[trigger] final(self)@.todo_items[k]).well_formed() by {
                assert(old(self)@.todo_items[k].well_formed());
                assert(final(self)@.todo_items[k] == item_updated(
                    old(self)@.todo_items[k],
                    id@,
                    titlev,
                    descv,
                    notesv,
                ));
            }
        }
    }

    /// Deletes every item row carrying the id; an absent id deletes
    /// nothing.  Join rows that reference the item stay: cascading delete
    /// is not implemented.
    pub fn delete_todo_item(&mut self, id: String)
        requires
            old(self)@.wf(),
        ensures
            final(self)@.wf(),
            final(self)@.todo_items == items_without(old(self)@.todo_items, id@),
            final(self)@.tags == old(self)@.tags,
            final(self)@.links == old(self)@.links,
    {
        let ghost iv = items_view(self.todo_items@);
        let mut out: Vec<TodoItem> = Vec::new();
        let mut i: usize = 0;
        while i < self.todo_items.len()
            invariant
                i <= self.todo_items@.len(),
                iv == items_view(self.todo_items@),
                items_view(out@) == items_without(iv.take(i as int), id@),
            decreases self.todo_items@.len() - i,
        {
            let ghost pre_out = out@;
            proof {
                assert(iv.take(i + 1 as int).drop_last() =~= iv.take(i as int));
                assert(iv.take(i + 1 as int).last() == iv[i as int]);
                assert(iv[i as int] == self.todo_items@[i as int]@);
            }
            let t = &self.todo_items[i];
            if t.id == id {
                proof {
                    assert(items_without(iv.take(i + 1 as int), id@) == items_without(
                        iv.take(i as int),
                        id@,
                    ) + Seq::<TodoItemV>::empty());
                    assert(items_without(iv.take(i + 1 as int), id@) =~= items_without(
                        iv.take(i as int),
                        id@,
                    ));
                }
            } else {
                let copy = t.clone();
                let ghost gcopy: TodoItem = copy;
                out.push(copy);
                proof {
                    assert(items_without(iv.take(i + 1 as int), id@) == items_without(
                        iv.take(i as int),
                        id@,
                    ) + seq![iv[i as int]]);
                    lemma_items_view_push(pre_out, gcopy);
                    assert(items_view(out@) =~= items_without(iv.take(i + 1 as int), id@));
                }
            }
            i = i + 1;
        }
        proof {
            assert(iv.take(self.todo_items@.len() as int) =~= iv);
        }
        self.todo_items = out;
        proof {
            lemma_items_without_wf(old(self)@.todo_items, id@);
        }
    }

    /// Stores a fresh join row attaching the tag to the item.  The row id
    /// must be fresh: inserting a duplicate key is refused by the database
    /// engine, so the caller checks with `has_link` first.  Neither the
    /// item nor the tag need exist: the schema's foreign keys are not
    /// enforced.
    pub fn add_tag_to_todo_item(&mut self, link_id: String, todo_item_id: String, tag_id: String)
        requires
            old(self)@.wf(),
            !old(self)@.has_link(link_id@),
        ensures
            final(self)@.wf(),
            final(self)@.links == old(self)@.links.push(
                TodoItemTagV { id: link_id@, todo_item_id: todo_item_id@, tag_id: tag_id@ },
            ),
            final(self)@.tags == old(self)@.tags,
            final(self)@.todo_items == old(self)@.todo_items,
    {
        let ghost lv = TodoItemTagV { id: link_id@, todo_item_id: todo_item_id@, tag_id: tag_id@ };
        let link = TodoItemTag { id: link_id, todo_item_id, tag_id };
        let ghost pre = self.links@;
        let ghost glink: TodoItemTag = link;
        self.links.push(link);
        proof {
            lemma_links_view_push(pre, glink);
            assert(final(self)@.links == old(self)@.links.push(lv));
            assert forall|k: int| 0 <= k < old(self)@.links.len() implies (#[trigger] old(self)@.links[k].id)
                != lv.id by {
                assert(!old(self)@.has_link(lv.id));
            }
            lemma_unique_links_push(old(self)@.links, lv);
        }
    }

    /// Deletes every join row attaching the tag to the item; when none
    /// does, nothing changes.
    pub fn remove_tag_from_todo_item(&mut self, todo_item_id: String, tag_id: String)
        requires
            old(self)@.wf(),
        ensures
            final(self)@.wf(),
            final(self)@.links == links_without(old(self)@.links, todo_item_id@, tag_id@),
            final(self)@.tags == old(self)@.tags,
            final(self)@.todo_items == old(self)@.todo_items,
    {
        let ghost lv = links_view(self.links@);
        let mut out: Vec<TodoItemTag> = Vec::new();
        let mut i: usize = 0;
        while i < self.links.len()
            invariant
                i <= self.links@.len(),
                lv == links_view(self.links@),
                links_view(out@) == links_without(lv.take(i as int), todo_item_id@, tag_id@),
            decreases self.links@.len() - i,
        {
            let ghost pre_out = out@;
            proof {
                assert(lv.take(i + 1 as int).drop_last() =~= lv.take(i as int));
                assert(lv.take(i + 1 as int).last() == lv[i as int]);
                assert(lv[i as int] == self.links@[i as int]@);
            }
            let l = &self.links[i];
            if l.todo_item_id == todo_item_id && l.tag_id == tag_id {
                proof {
                    assert(links_without(lv.take(i + 1 as int), todo_item_id@, tag_id@)
                        == links_without(lv.take(i as int), todo_item_id@, tag_id@) + Seq::<
                        TodoItemTagV,
                    >::empty());
                    assert(links_without(lv.take(i + 1 as int), todo_item_id@, tag_id@)
                        =~= links_without(lv.take(i as int), todo_item_id@, tag_id@));
                }
            } else {
                let copy = l.clone();
                let ghost gcopy: TodoItemTag = copy;
                out.push(copy);
                proof {
                    assert(links_without(lv.take(i + 1 as int), todo_item_id@, tag_id@)
                        == links_without(lv.take(i as int), todo_item_id@, tag_id@) + seq![
                        lv[i as int],
                    ]);
                    lemma_links_view_push(pre_out, gcopy);
                    assert(links_view(out@) =~= links_without(
                        lv.take(i + 1 as int),
                        todo_item_id@,
                        tag_id@,
                    ));
                }
            }
            i = i + 1;
        }
        proof {
            assert(lv.take(self.links@.len() as int) =~= lv);
        }
        self.links = out;
        proof {
            lemma_links_without_wf(old(self)@.links, todo_item_id@, tag_id@);
        }
    }

    /// The tags attached to one item, in the order of its join rows, as
    /// the command behind the item's tag list reads them: the join rows
    /// carrying the item's id are walked in order, each referenced tag is
    /// looked up, and the ones that are gone are skipped.
    pub fn get_todo_item_tags(&self, todo_item_id: &String) -> (r: Vec<Tag>)
        ensures
            tags_view(r@) == item_tags(self@.links, self@.tags, todo_item_id@),
    {
        let ghost lv = links_view(self.links@);
        let ghost tgv = tags_view(self.tags@);
        let ghost tiv = todo_item_id@;
        let mut out: Vec<Tag> = Vec::new();
        let mut i: usize = 0;
        while i < self.links.len()
            invariant
                i <= self.links@.len(),
                lv == links_view(self.links@),
                tgv == tags_view(self.tags@),
                tiv == todo_item_id@,
                tags_view(out@) == item_tags(lv.take(i as int), tgv, tiv),
            decreases self.links@.len() - i,
        {
            let ghost pre_out = out@;
            proof {
                assert(lv.take(i + 1 as int).drop_last() =~= lv.take(i as int));
                assert(lv.take(i + 1 as int).last() == lv[i as int]);
                assert(lv[i as int] == self.links@[i as int]@);
            }
            let l = &self.links[i];
            if l.todo_item_id == *todo_item_id {
                match find_tag_row(&self.tags, &l.tag_id) {
                    Some(t) => {
                        let ghost gt: Tag = t;
                        out.push(t);
                        proof {
                            assert(find_tag(tgv, lv[i as int].tag_id) == Some(gt@));
                            assert(item_tags(lv.take(i + 1 as int), tgv, tiv) == item_tags(
                                lv.take(i as int),
                                tgv,
                                tiv,
                            ) + seq![gt@]);
                            lemma_tags_view_push(pre_out, gt);
                            assert(tags_view(out@) =~= item_tags(lv.take(i + 1 as int), tgv, tiv));
                        }
                    },
                    None => {
                        proof {
                            assert(item_tags(lv.take(i + 1 as int), tgv, tiv) == item_tags(
                                lv.take(i as int),
                                tgv,
                                tiv,
                            ) + Seq::<TagV>::empty());
                            assert(item_tags(lv.take(i + 1 as int), tgv, tiv) =~= item_tags(
                                lv.take(i as int),
                                tgv,
                                tiv,
                            ));
                        }
                    },
                }
            } else {
                proof {
                    assert(item_tags(lv.take(i + 1 as int), tgv, tiv) == item_tags(
                        lv.take(i as int),
                        tgv,
                        tiv,
                    ) + Seq::<TagV>::empty());
                    assert(item_tags(lv.take(i + 1 as int), tgv, tiv) =~= item_tags(
                        lv.take(i as int),
                        tgv,
                        tiv,
                    ));
                }
            }
            i = i + 1;
        }
        proof {
            assert(lv.take(self.links@.len() as int) =~= lv);
        }
        out
    }
}

/// Deleting items by id keeps what uniqueness the table had.
proof fn lemma_items_without_wf(items: Seq<TodoItemV>, id: Seq<char>)
    requires
        unique_item_ids(items),
        items_well_formed(items),
    ensures
        unique_item_ids(items_without(items, id)),
        items_well_formed(items_without(items, id)),
    decreases items.len(),
{
    if items.len() > 0 {
        lemma_items_without_wf(items.drop_last(), id);
        let rest = items_without(items.drop_last(), id);
        assert forall|k: int| 0 <= k < rest.len() implies exists|m: int|
            0 <= m < items.drop_last().len() && (#[trigger] rest[k]) == items.drop_last()[m] by {
            lemma_items_without_membership(items.drop_last(), id, k);
        }
        assert forall|i: int, j: int|
            0 <= i < j < items_without(items, id).len() implies (#[trigger] items_without(
            items,
            id,
        )[i].id) != (#[trigger] items_without(items, id)[j].id) by {
            if j < rest.len() {
                assert(items_without(items, id)[i] == rest[i]);
                assert(items_without(items, id)[j] == rest[j]);
                assert(unique_item_ids(rest));
                assert(rest[i].id != rest[j].id);
            } else {
                assert(items_without(items, id)[j] == items.last());
                assert(items_without(items, id)[i] == rest[i]);
                let m = choose|m: int|
                    0 <= m < items.drop_last().len() && (#[trigger] rest[i]) == items.drop_last()[m];
                assert(items[m].id != items[items.len() - 1].id);
            }
        }
        assert forall|k: int| 0 <= k < items_without(items, id).len() implies (
        #[trigger] items_without(items, id)[k]).well_formed() by {
            if k < rest.len() {
                assert(items_without(items, id)[k] == rest[k]);
                assert(items_well_formed(rest));
                assert(rest[k].well_formed());
            } else {
                assert(items_without(items, id)[k] == items.last());
                assert(items[items.len() - 1].well_formed());
            }
        }
    }
}

/// Every item row that survives a keyed delete stood in the table.
proof fn lemma_items_without_membership(items: Seq<TodoItemV>, id: Seq<char>, k: int)
    requires
        0 <= k < items_without(items, id).len(),
    ensures
        exists|m: int| 0 <= m < items.len() && (#[trigger] items_without(items, id)[k]) == items[m],
    decreases items.len(),
{
    if items.len() > 0 {
        let rest = items_without(items.drop_last(), id);
        if k < rest.len() {
            lemma_items_without_membership(items.drop_last(), id, k);
            let m = choose|m: int|
                0 <= m < items.drop_last().len() && (#[trigger] rest[k]) == items.drop_last()[m];
            assert(items_without(items, id)[k] == rest[k]);
            assert(items.drop_last()[m] == items[m]);
            assert(items_without(items, id)[k] == items[m]);
        } else {
            assert(items_without(items, id)[k] == items.last());
            assert(items_without(items, id)[k] == items[items.len() - 1]);
        }
    }
}

/// Detaching a tag keeps what uniqueness the join table had.
proof fn lemma_links_without_wf(links: Seq<TodoItemTagV>, todo_item_id: Seq<char>, tag_id: Seq<char>)
    requires
        unique_link_ids(links),
    ensures
        unique_link_ids(links_without(links, todo_item_id, tag_id)),
    decreases links.len(),
{
    if links.len() > 0 {
        lemma_links_without_wf(links.drop_last(), todo_item_id, tag_id);
        let rest = links_without(links.drop_last(), todo_item_id, tag_id);
        assert forall|k: int| 0 <= k < rest.len() implies exists|m: int|
            0 <= m < links.drop_last().len() && (#[trigger] rest[k]) == links.drop_last()[m] by {
            lemma_links_without_membership(links.drop_last(), todo_item_id, tag_id, k);
        }
        assert forall|i: int, j: int|
            0 <= i < j < links_without(links, todo_item_id, tag_id).len() implies (
        #[trigger] links_without(links, todo_item_id, tag_id)[i].id) != (#[trigger] links_without(
            links,
            todo_item_id,
            tag_id,
        )[j].id) by {
            if j < rest.len() {
                assert(links_without(links, todo_item_id, tag_id)[i] == rest[i]);
                assert(links_without(links, todo_item_id, tag_id)[j] == rest[j]);
                assert(unique_link_ids(rest));
                assert(rest[i].id != rest[j].id);
            } else {
                assert(links_without(links, todo_item_id, tag_id)[j] == links.last());
                assert(links_without(links, todo_item_id, tag_id)[i] == rest[i]);
                let m = choose|m: int|
                    0 <= m < links.drop_last().len() && (#[trigger] rest[i]) == links.drop_last()[m];
                assert(links[m].id != links[links.len() - 1].id);
            }
        }
    }
}

/// Every join row that survives a detach stood in the table.
proof fn lemma_links_without_membership(
    links: Seq<TodoItemTagV>,
    todo_item_id: Seq<char>,
    tag_id: Seq<char>,
    k: int,
)
    requires
        0 <= k < links_without(links, todo_item_id, tag_id).len(),
    ensures
        exists|m: int|
            0 <= m < links.len() && (#[trigger] links_without(links, todo_item_id, tag_id)[k])
                == links[m],
    decreases links.len(),
{
    if links.len() > 0 {
        let rest = links_without(links.drop_last(), todo_item_id, tag_id);
        if k < rest.len() {
            lemma_links_without_membership(links.drop_last(), todo_item_id, tag_id, k);
            let m = choose|m: int|
                0 <= m < links.drop_last().len() && (#[trigger] rest[k]) == links.drop_last()[m];
            assert(links_without(links, todo_item_id, tag_id)[k] == rest[k]);
            assert(links.drop_last()[m] == links[m]);
            assert(links_without(links, todo_item_id, tag_id)[k] == links[m]);
        } else {
            assert(links_without(links, todo_item_id, tag_id)[k] == links.last());
            assert(links_without(links, todo_item_id, tag_id)[k] == links[links.len() - 1]);
        }
    }
}

/// Every row that survives a keyed delete stood in the table.
proof fn lemma_tags_without_membership(tags: Seq<TagV>, id: Seq<char>, k: int)
    requires
        0 <= k < tags_without(tags, id).len(),
    ensures
        exists|m: int| 0 <= m < tags.len() && (#[trigger] tags_without(tags, id)[k]) == tags[m],
    decreases tags.len(),
{
    if tags.len() > 0 {
        let rest = tags_without(tags.drop_last(), id);
        if k < rest.len() {
            lemma_tags_without_membership(tags.drop_last(), id, k);
            let m = choose|m: int|
                0 <= m < tags.drop_last().len() && (#[trigger] rest[k]) == tags.drop_last()[m];
            assert(tags_without(tags, id)[k] == rest[k]);
            assert(tags.drop_last()[m] == tags[m]);
            assert(tags_without(tags, id)[k] == tags[m]);
        } else {
            assert(tags_without(tags, id)[k] == tags.last());
            assert(tags_without(tags, id)[k] == tags[tags.len() - 1]);
        }
    }
}

} // verus!
