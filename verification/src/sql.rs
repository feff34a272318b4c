//! SQL statements and their parameters, as values.
//!
//! Every database operation of this library is a single statement together
//! with the values bound into it.  A `Request` carries positional
//! parameters, a `NamedRequest` parameters bound by name.  The caller runs
//! the statement; nothing here touches a connection.

use vstd::prelude::*;

verus! {

/// A SQL statement with its positional parameters, in bind order.
#[derive(Debug)]
pub struct Request {
    pub sql: String,
    pub binds: Vec<String>,
}

/// The mathematical value of a `Request`.
#[verifier::ext_equal]
pub ghost struct RequestV {
    pub sql: Seq<char>,
    pub binds: Seq<Seq<char>>,
}

/// The values of a sequence of strings.
pub open spec fn strings_view(s: Seq<String>) -> Seq<Seq<char>> {
    s.map_values(|b: String| b@)
}

/// The values of a sequence of (parameter name, value) pairs.
pub open spec fn pairs_view(s: Seq<(String, String)>) -> Seq<(Seq<char>, Seq<char>)> {
    s.map_values(|b: (String, String)| (b.0@, b.1@))
}

impl View for Request {
    type V = RequestV;

    open spec fn view(&self) -> RequestV {
        RequestV { sql: self.sql@, binds: strings_view(self.binds@) }
    }
}

/// A SQL statement with its named parameters.
#[derive(Debug)]
pub struct NamedRequest {
    pub sql: String,
    pub binds: Vec<(String, String)>,
}

/// The mathematical value of a `NamedRequest`: each bind is a
/// (parameter name, value) pair.
#[verifier::ext_equal]
pub ghost struct NamedRequestV {
    pub sql: Seq<char>,
    pub binds: Seq<(Seq<char>, Seq<char>)>,
}

impl View for NamedRequest {
    type V = NamedRequestV;

    open spec fn view(&self) -> NamedRequestV {
        NamedRequestV { sql: self.sql@, binds: pairs_view(self.binds@) }
    }
}

/// The value of an optional field.
pub open spec fn opt_view(o: Option<String>) -> Option<Seq<char>> {
    match o {
        Some(s) => Some(s@),
        None => None,
    }
}

/// The text of one assignment in a `set` clause: `key = :key`.
pub open spec fn assignment_text(key: Seq<char>) -> Seq<char> {
    key + " = :"@ + key
}

/// The name under which a field's value is bound: `:key`.
pub open spec fn param_name(key: Seq<char>) -> Seq<char> {
    ":"@ + key
}

/// The keys of the fields that carry a value, in order.
pub open spec fn present_keys(fields: Seq<(Seq<char>, Option<Seq<char>>)>) -> Seq<Seq<char>>
    decreases fields.len(),
{
    if fields.len() == 0 {
        Seq::empty()
    } else {
        present_keys(fields.drop_last()) + if fields.last().1 is Some {
            seq![fields.last().0]
        } else {
            Seq::empty()
        }
    }
}

/// The named binds of the fields that carry a value: (`:key`, value), in order.
pub open spec fn present_binds(fields: Seq<(Seq<char>, Option<Seq<char>>)>) -> Seq<
    (Seq<char>, Seq<char>),
>
    decreases fields.len(),
{
    if fields.len() == 0 {
        Seq::empty()
    } else {
        present_binds(fields.drop_last()) + if fields.last().1 is Some {
            seq![(param_name(fields.last().0), fields.last().1->0)]
        } else {
            Seq::empty()
        }
    }
}

/// The assignment texts of a sequence of keys.
pub open spec fn assignments(keys: Seq<Seq<char>>) -> Seq<Seq<char>> {
    keys.map_values(|k: Seq<char>| assignment_text(k))
}

/// Parts joined with single spaces, as `join(" ")` leaves them: a
/// separator between neighbours, none at either end.
pub open spec fn joined_with_spaces(parts: Seq<Seq<char>>) -> Seq<char>
    decreases parts.len(),
{
    if parts.len() == 0 {
        Seq::empty()
    } else if parts.len() == 1 {
        parts[0]
    } else {
        joined_with_spaces(parts.drop_last()) + seq![' '] + parts.last()
    }
}

/// The full text of a partial update: the fixed prefix, the present
/// fields' assignments joined with spaces, and the `where` clause.
/// Neighbouring assignments are separated by a space alone, so the
/// statement parses only when exactly one field is present.
pub open spec fn update_sql(prefix: Seq<char>, fields: Seq<(Seq<char>, Option<Seq<char>>)>) -> Seq<
    char,
> {
    prefix + seq![' '] + joined_with_spaces(assignments(present_keys(fields))) + seq![' ']
        + "where id = :id"@
}

/// The named binds of a partial update: the row's id as `:id`, then the
/// present fields in order.
pub open spec fn update_binds(id: Seq<char>, fields: Seq<(Seq<char>, Option<Seq<char>>)>) -> Seq<
    (Seq<char>, Seq<char>),
> {
    seq![(":id"@, id)] + present_binds(fields)
}

/// The fields as the specification functions above see them.
pub open spec fn fields_view(fields: Seq<(String, Option<String>)>) -> Seq<
    (Seq<char>, Option<Seq<char>>),
> {
    fields.map_values(|f: (String, Option<String>)| (f.0@, opt_view(f.1)))
}

proof fn lemma_strings_view_push(s: Seq<String>, x: String)
    ensures
        strings_view(s.push(x)) == strings_view(s).push(x@),
{
    assert forall|j: int| 0 <= j < strings_view(s.push(x)).len() implies strings_view(s.push(x))[j]
        == strings_view(s).push(x@)[j] by {
        if j < s.len() {
            assert(strings_view(s)[j] == s[j]@);
            assert(s.push(x)[j] == s[j]);
        }
    }
    assert(strings_view(s.push(x)) =~= strings_view(s).push(x@));
}

proof fn lemma_pairs_view_push(s: Seq<(String, String)>, x: (String, String))
    ensures
        pairs_view(s.push(x)) == pairs_view(s).push((x.0@, x.1@)),
{
    assert forall|j: int| 0 <= j < pairs_view(s.push(x)).len() implies pairs_view(s.push(x))[j]
        == pairs_view(s).push((x.0@, x.1@))[j] by {
        if j < s.len() {
            assert(pairs_view(s)[j] == (s[j].0@, s[j].1@));
            assert(s.push(x)[j] == s[j]);
        }
    }
    assert(pairs_view(s.push(x)) =~= pairs_view(s).push((x.0@, x.1@)));
}

proof fn lemma_assignments_append_one(keys: Seq<Seq<char>>, k: Seq<char>)
    ensures
        assignments(keys + seq![k]) == assignments(keys).push(assignment_text(k)),
{
    assert forall|j: int| 0 <= j < assignments(keys + seq![k]).len() implies assignments(
        keys + seq![k],
    )[j] == assignments(keys).push(assignment_text(k))[j] by {
        if j < keys.len() {
            assert((keys + seq![k])[j] == keys[j]);
            assert(assignments(keys)[j] == assignment_text(keys[j]));
        } else {
            assert((keys + seq![k])[j] == k);
        }
    }
    assert(assignments(keys + seq![k]) =~= assignments(keys).push(assignment_text(k)));
}

/// Joins parts with single spaces, as `Vec::join(" ")` does.
fn join_with_spaces(parts: &Vec<String>) -> (r: String)
    ensures
        r@ == joined_with_spaces(strings_view(parts@)),
{
    let ghost pv = strings_view(parts@);
    let mut r = String::new();
    let mut i: usize = 0;
    while i < parts.len()
        invariant
            i <= parts@.len(),
            pv == strings_view(parts@),
            r@ == joined_with_spaces(pv.take(i as int)),
        decreases parts@.len() - i,
    {
        if i > 0 {
            r.append(" ");
        }
        r.append(parts[i].as_str());
        proof {
            reveal_strlit(" ");
            assert(" "@ =~= seq![' ']);
            assert(pv[i as int] == parts@[i as int]@);
            assert(pv.take(i + 1 as int).drop_last() =~= pv.take(i as int));
            assert(pv.take(i + 1 as int).last() == pv[i as int]);
            if i == 0 {
                assert(pv.take(1).len() == 1);
                assert(joined_with_spaces(pv.take(1)) == pv[0]);
            }
        }
        i = i + 1;
    }
    proof {
        assert(pv.take(parts@.len() as int) =~= pv);
    }
    r
}

/// Builds the partial `update` statement that a set of optional fields
/// calls for: one assignment for each present field, the row's id bound
/// as `:id` first, each field's value under `:key`.
pub fn build_update(prefix: &str, fields: Vec<(String, Option<String>)>, id: String) -> (r:
    NamedRequest)
    ensures
        r@.sql == update_sql(prefix@, fields_view(fields@)),
        r@.binds == update_binds(id@, fields_view(fields@)),
{
    let ghost fv = fields_view(fields@);
    let mut conditions: Vec<String> = Vec::new();
    let mut binds: Vec<(String, String)> = Vec::new();
    let ghost idv = id@;
    binds.push((String::from_str(":id"), id));
    proof {
        assert(strings_view(conditions@) =~= assignments(present_keys(fv.take(0))));
        assert(pairs_view(binds@) =~= update_binds(idv, fv.take(0)));
    }
    let mut i: usize = 0;
    while i < fields.len()
        invariant
            i <= fields@.len(),
            fv == fields_view(fields@),
            strings_view(conditions@) == assignments(present_keys(fv.take(i as int))),
            pairs_view(binds@) == update_binds(idv, fv.take(i as int)),
        decreases fields@.len() - i,
    {
        let ghost pre_conditions = conditions@;
        let ghost pre_binds = binds@;
        proof {
            assert(fv.take(i + 1 as int).drop_last() =~= fv.take(i as int));
            assert(fv.take(i + 1 as int).last() == fv[i as int]);
            assert(fv[i as int] == (fields@[i as int].0@, opt_view(fields@[i as int].1)));
        }
        let f = &fields[i];
        match &f.1 {
            Some(v) => {
                let mut cond = f.0.clone();
                cond.append(" = :");
                cond.append(f.0.as_str());
                let ghost gcond: String = cond;
                conditions.push(cond);
                let mut pname = String::from_str(":");
                pname.append(f.0.as_str());
                let new_bind = (pname, v.clone());
                let ghost gbind: (String, String) = new_bind;
                binds.push(new_bind);
                proof {
                    let key = fv[i as int].0;
                    assert(present_keys(fv.take(i + 1 as int)) == present_keys(fv.take(i as int))
                        + seq![key]);
                    lemma_assignments_append_one(present_keys(fv.take(i as int)), key);
                    assert(gcond@ == assignment_text(key));
                    lemma_strings_view_push(pre_conditions, gcond);
                    assert(strings_view(conditions@) == assignments(
                        present_keys(fv.take(i + 1 as int)),
                    ));
                    let pair = (param_name(key), fv[i as int].1->0);
                    assert(present_binds(fv.take(i + 1 as int)) == present_binds(fv.take(i as int))
                        + seq![pair]);
                    assert(update_binds(idv, fv.take(i + 1 as int)) =~= update_binds(
                        idv,
                        fv.take(i as int),
                    ).push(pair));
                    assert((gbind.0@, gbind.1@) == pair);
                    lemma_pairs_view_push(pre_binds, gbind);
                    assert(pairs_view(binds@) == update_binds(idv, fv.take(i + 1 as int)));
                }
            },
            None => {
                proof {
                    assert(present_keys(fv.take(i + 1 as int)) == present_keys(fv.take(i as int))
                        + Seq::<Seq<char>>::empty());
                    assert(present_keys(fv.take(i + 1 as int)) =~= present_keys(fv.take(i as int)));
                    assert(present_binds(fv.take(i + 1 as int)) == present_binds(fv.take(i as int))
                        + Seq::<(Seq<char>, Seq<char>)>::empty());
                    assert(present_binds(fv.take(i + 1 as int)) =~= present_binds(
                        fv.take(i as int),
                    ));
                    assert(update_binds(idv, fv.take(i + 1 as int)) =~= update_binds(
                        idv,
                        fv.take(i as int),
                    ));
                }
            },
        }
        i = i + 1;
    }
    proof {
        assert(fv.take(fields@.len() as int) =~= fv);
    }
    let joined = join_with_spaces(&conditions);
    let mut sql = String::from_str(prefix);
    sql.append(" ");
    sql.append(joined.as_str());
    sql.append(" ");
    sql.append("where id = :id");
    proof {
        reveal_strlit(" ");
        assert(" "@ =~= seq![' ']);
        assert(sql@ =~= update_sql(prefix@, fv));
    }
    NamedRequest { sql, binds }
}

} // verus!
