use vstd::prelude::*;
use vstd::string::*;
use crate::args::{filters_of, ArgModel};
use crate::error::{Error, ErrorModel};
use crate::ordered_map::{distinct_names, inserted, lemma_inserted, lookup};
use crate::row::{marshaled, StoredModel};
use crate::scalar::ScalarType;
use crate::mapping::{type_entries, types_at, types_insert, types_len, types_new, TypeMapping};

verus! {

/// One member of a component, as the metadata table lists it.
#[derive(Clone, Debug, PartialEq, Eq)]
pub struct ComponentMembers {
    pub component_id: String,
    pub name: String,
    pub ty: String,
    pub slot: i64,
    pub offset: i64,
    /// Seconds since the Unix epoch.
    pub created_at: i64,
}

/// The schema that a list of members declares: each member filed under its
/// name, in order, a later member of the same name taking the earlier one's
/// place.
pub open spec fn schema_of(members: Seq<ComponentMembers>) -> Seq<(Seq<char>, Seq<char>)>
    decreases members.len(),
{
    if members.len() == 0 {
        Seq::empty()
    } else {
        inserted(schema_of(members.drop_last()), members.last().name@, members.last().ty@)
    }
}

/// No attribute name occurs twice in a schema.
pub proof fn lemma_schema_distinct(members: Seq<ComponentMembers>)
    ensures
        distinct_names(schema_of(members)),
    decreases members.len(),
{
    if members.len() > 0 {
        lemma_schema_distinct(members.drop_last());
        lemma_inserted(
            schema_of(members.drop_last()),
            members.last().name@,
            members.last().ty@,
        );
    }
}

/// The last member of a name wins: the schema gives each name the type of the
/// last member that carries it.
pub proof fn lemma_last_member_wins(members: Seq<ComponentMembers>, k: int)
    requires
        0 <= k < members.len(),
        forall|j: int| k < j < members.len() ==> (#[trigger] members[j]).name@ != members[k].name@,
    ensures
        lookup(schema_of(members), members[k].name@) == Some(members[k].ty@),
    decreases members.len(),
{
    let front = members.drop_last();
    let last = members.last();
    lemma_schema_distinct(front);
    lemma_inserted(schema_of(front), last.name@, last.ty@);
    if k < members.len() - 1 {
        assert(front[k] == members[k]);
        assert forall|j: int| k < j < front.len() implies (#[trigger] front[j]).name@
            != front[k].name@ by {
            assert(front[j] == members[j]);
        }
        lemma_last_member_wins(front, k);
        assert(members[members.len() - 1].name@ != members[k].name@);
    }
}

/// Folds the members of a component into its attribute schema.
pub fn type_mapping_from(members: &Vec<ComponentMembers>) -> (m: TypeMapping)
    ensures
        type_entries(m) == schema_of(members@),
        distinct_names(type_entries(m)),
{
    let mut mapping: TypeMapping = types_new();
    let mut i: usize = 0;
    while i < members.len()
        invariant
            i <= members@.len(),
            type_entries(mapping) == schema_of(members@.take(i as int)),
        decreases members@.len() - i,
    {
        proof {
            assert(members@.take(i + 1).drop_last() =~= members@.take(i as int));
            assert(members@.take(i + 1).last() == members@[i as int]);
        }
        types_insert(&mut mapping, members[i].name.as_str(), members[i].ty.clone());
        i += 1;
    }
    proof {
        assert(members@.take(i as int) =~= members@);
        lemma_schema_distinct(members@);
    }
    mapping
}

/// Whether every attribute of a schema is declared with a known scalar type.
pub open spec fn all_types_known(fields: Seq<(Seq<char>, Seq<char>)>) -> bool {
    forall|i: int| 0 <= i < fields.len() ==> ScalarType::from_tag((#[trigger] fields[i]).1) is Some
}

/// Checks that every attribute of a schema is declared with a known scalar
/// type. The first tag that names none is reported.
pub fn check_types(fields: &TypeMapping) -> (r: Result<(), Error>)
    ensures
        match r {
            Ok(_) => all_types_known(type_entries(*fields)),
            Err(e) => exists|k: int|
                {
                    &&& 0 <= k < type_entries(*fields).len()
                    &&& ScalarType::from_tag((#[trigger] type_entries(*fields)[k]).1) is None
                    &&& e@ == (ErrorModel::UnknownType { tag: type_entries(*fields)[k].1 })
                    &&& all_types_known(type_entries(*fields).take(k))
                },
        },
{
    let ghost schema = type_entries(*fields);
    let n: usize = types_len(fields);
    let mut i: usize = 0;
    while i < n
        invariant
            schema == type_entries(*fields),
            n == schema.len(),
            i <= n,
            all_types_known(schema.take(i as int)),
        decreases n - i,
    {
        let entry = types_at(fields, i);
        match ScalarType::from_str(entry.1.as_str()) {
            Ok(_) => {},
            Err(e) => {
                assert(ScalarType::from_tag(schema[i as int].1) is None);
                return Err(e);
            },
        }
        proof {
            let next = schema.take(i + 1);
            assert forall|j: int| 0 <= j < next.len() implies ScalarType::from_tag(
                (#[trigger] next[j]).1,
            ) is Some by {
                if j < i {
                    assert(schema.take(i as int)[j] == next[j]);
                }
            }
        }
        i += 1;
    }
    proof {
        assert(schema.take(i as int) =~= schema);
    }
    Ok(())
}

/// In a schema whose types are all known, no row fails for want of a type: a
/// failure to decode is always a failure to read a column.
pub proof fn lemma_known_types_decode(
    fields: Seq<(Seq<char>, Seq<char>)>,
    row: Seq<(Seq<char>, StoredModel)>,
)
    requires
        all_types_known(fields),
    ensures
        marshaled(fields, row) matches Err(e) ==> e is Decode,
    decreases fields.len(),
{
    if fields.len() > 0 {
        let front = fields.drop_last();
        assert(ScalarType::from_tag(fields[fields.len() - 1].1) is Some);
        assert forall|i: int| 0 <= i < front.len() implies ScalarType::from_tag(
            (#[trigger] front[i]).1,
        ) is Some by {
            assert(front[i] == fields[i]);
        }
        lemma_known_types_decode(front, row);
    }
}

/// In a schema whose types are all known, arguments fail only by their form.
pub proof fn lemma_known_types_parse(
    fields: Seq<(Seq<char>, Seq<char>)>,
    args: Seq<(Seq<char>, ArgModel)>,
)
    requires
        all_types_known(fields),
    ensures
        filters_of(fields, args) matches Err(e) ==> e is InvalidArgument,
    decreases fields.len(),
{
    if fields.len() > 0 {
        let front = fields.drop_last();
        assert(ScalarType::from_tag(fields[fields.len() - 1].1) is Some);
        assert forall|i: int| 0 <= i < front.len() implies ScalarType::from_tag(
            (#[trigger] front[i]).1,
        ) is Some by {
            assert(front[i] == fields[i]);
        }
        lemma_known_types_parse(front, args);
    }
}

} // verus!
