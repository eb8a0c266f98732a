use vstd::prelude::*;
use vstd::string::*;
use crate::args::ComponentFilters;
use crate::text::{column_name, decimal, decimal_string, prefixed};

verus! {

/// A statement for the store: its text, with one `?` for each bound value, and
/// the values to bind, in order.
#[derive(Clone, Debug, PartialEq, Eq)]
pub struct Query {
    pub sql: String,
    pub binds: Vec<String>,
}

/// The texts of a list of strings.
pub open spec fn texts(list: Seq<String>) -> Seq<Seq<char>> {
    Seq::new(list.len(), |i: int| list[i]@)
}

/// The conditions of a filter set: one equality per filter, on the attribute's
/// column and a bound value, joined by `AND`.
pub open spec fn conditions(filters: Seq<(Seq<char>, Seq<char>)>) -> Seq<char>
    decreases filters.len(),
{
    if filters.len() == 0 {
        Seq::empty()
    } else if filters.len() == 1 {
        prefixed(filters[0].0) + " = ?"@
    } else {
        conditions(filters.drop_last()) + " AND "@ + prefixed(filters.last().0) + " = ?"@
    }
}

/// The values of a filter set, in order.
pub open spec fn filter_values(filters: Seq<(Seq<char>, Seq<char>)>) -> Seq<Seq<char>> {
    Seq::new(filters.len(), |i: int| filters[i].1)
}

/// The statement that selects the states of an entity: everything from the
/// entity's table, under the filters if there are any, newest first, capped.
pub open spec fn states_sql(name: Seq<char>, filters: Seq<(Seq<char>, Seq<char>)>) -> Seq<char> {
    "SELECT * FROM "@ + prefixed(name) + (if filters.len() == 0 {
        Seq::<char>::empty()
    } else {
        " WHERE "@ + conditions(filters)
    }) + " ORDER BY created_at DESC LIMIT ?"@
}

/// The values bound to that statement: each filter's value, then the cap as a
/// decimal numeral.
pub open spec fn states_binds(filters: Seq<(Seq<char>, Seq<char>)>, limit: u64) -> Seq<Seq<char>> {
    filter_values(filters).push(decimal(limit as nat))
}

/// The statement that selects one state of an entity by its identifier.
pub open spec fn by_id_sql(name: Seq<char>) -> Seq<char> {
    "SELECT * FROM "@ + prefixed(name) + " WHERE id = ?"@
}

/// The statement that selects the members of a component.
pub open spec fn members_sql() -> Seq<char> {
    "SELECT component_id, name, type AS ty, slot, offset, created_at FROM component_members WHERE component_id = ?"@
}

/// Every filter value is bound, none stands in the text: a statement binds one
/// value per filter and one for the cap.
pub proof fn lemma_every_filter_bound(filters: Seq<(Seq<char>, Seq<char>)>, limit: u64)
    ensures
        states_binds(filters, limit).len() == filters.len() + 1,
        forall|i: int|
            0 <= i < filters.len() ==> #[trigger] states_binds(filters, limit)[i] == filters[i].1,
        states_binds(filters, limit).last() == decimal(limit as nat),
{
}

/// Builds the query for the states of entity `name` under `filters`, at most
/// `limit` of them, newest first.
pub fn component_states_query(name: &str, filters: &ComponentFilters, limit: u64) -> (q: Query)
    ensures
        q.sql@ == states_sql(name@, filters@),
        texts(q.binds@) == states_binds(filters@, limit),
{
    let mut sql = String::from_str("SELECT * FROM ");
    let table = column_name(name);
    sql.append(table.as_str());
    let mut binds: Vec<String> = Vec::new();
    let ghost start = sql@;
    assert(texts(binds@) =~= filter_values(filters@.take(0)));
    if filters.len() > 0 {
        sql.append(" WHERE ");
        let ghost head = sql@;
        assert(sql@ =~= head + conditions(filters@.take(0)));
        let mut i: usize = 0;
        while i < filters.len()
            invariant
                i <= filters@.len(),
                binds@.len() == i,
                sql@ == head + conditions(filters@.take(i as int)),
                texts(binds@) == filter_values(filters@.take(i as int)),
            decreases filters@.len() - i,
        {
            let ghost done = conditions(filters@.take(i as int));
            let ghost bound = binds@;
            if i > 0 {
                sql.append(" AND ");
            }
            let column = column_name(filters.name_at(i).as_str());
            sql.append(column.as_str());
            sql.append(" = ?");
            binds.push(filters.value_at(i).clone());
            proof {
                let next = filters@.take(i + 1);
                assert(next.drop_last() =~= filters@.take(i as int));
                assert(next.last() == filters@[i as int]);
                assert(next[0] == filters@[0]);
                assert(i == 0 ==> done =~= Seq::<char>::empty());
                assert(sql@ =~= head + conditions(next));
                assert forall|j: int| 0 <= j < next.len() implies texts(binds@)[j]
                    == filter_values(next)[j] by {
                    if j < i {
                        assert(binds@[j] == bound[j]);
                        assert(texts(bound)[j] == filter_values(filters@.take(i as int))[j]);
                    }
                }
                assert(texts(binds@) =~= filter_values(next));
            }
            i += 1;
        }
        assert(filters@.take(i as int) =~= filters@);
        assert(sql@ =~= start + (" WHERE "@ + conditions(filters@)));
    } else {
        assert(filters@.take(0) =~= filters@);
        assert(sql@ =~= start + Seq::<char>::empty());
    }
    sql.append(" ORDER BY created_at DESC LIMIT ?");
    binds.push(decimal_string(limit));
    assert(texts(binds@) =~= states_binds(filters@, limit));
    Query { sql, binds }
}

/// Builds the query for the one state of entity `name` with identifier `id`.
pub fn component_state_by_id(name: &str, id: &str) -> (q: Query)
    ensures
        q.sql@ == by_id_sql(name@),
        texts(q.binds@) == seq![id@],
{
    let mut sql = String::from_str("SELECT * FROM ");
    let table = column_name(name);
    sql.append(table.as_str());
    sql.append(" WHERE id = ?");
    let mut binds: Vec<String> = Vec::new();
    binds.push(String::from_str(id));
    assert(texts(binds@) =~= seq![id@]);
    Query { sql, binds }
}

/// Builds the query for the members of the component `component_id`.
pub fn component_members_query(component_id: &str) -> (q: Query)
    ensures
        q.sql@ == members_sql(),
        texts(q.binds@) == seq![component_id@],
{
    let sql = String::from_str(
        "SELECT component_id, name, type AS ty, slot, offset, created_at FROM component_members WHERE component_id = ?",
    );
    let mut binds: Vec<String> = Vec::new();
    binds.push(String::from_str(component_id));
    assert(texts(binds@) =~= seq![component_id@]);
    Query { sql, binds }
}

} // verus!
