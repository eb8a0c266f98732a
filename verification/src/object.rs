use vstd::prelude::*;
use vstd::string::*;
use crate::ordered_map::{has_name, index_of, inserted, OrderedMap};
use crate::mapping::{type_entries, types_at, types_len, TypeMapping};

verus! {

/// What the API layer needs to register the list field of a component: the
/// field's name, the object type its list holds, and its arguments with their
/// type names, in order.
#[derive(Clone, Debug, PartialEq, Eq)]
pub struct FieldPlan {
    pub name: String,
    pub list_of: String,
    pub arguments: OrderedMap<String>,
}

/// A component whose states can be queried: its name, the name of its object
/// type, and its attribute schema.
#[derive(Debug, PartialEq, Eq)]
pub struct ComponentStateObject {
    pub name: String,
    pub type_label: String,
    pub field_type_mapping: TypeMapping,
}

/// The arguments of a component's list field: one per attribute, of the
/// attribute's declared type, and an integer `limit`, which takes the place of
/// an attribute of that name.
pub open spec fn arguments_of(fields: Seq<(Seq<char>, Seq<char>)>) -> Seq<(Seq<char>, Seq<char>)> {
    inserted(fields, "limit"@, "Int"@)
}

/// The list field takes one argument more than the schema has attributes,
/// unless an attribute is itself named `limit`: then it takes as many.
pub proof fn lemma_argument_count(fields: Seq<(Seq<char>, Seq<char>)>)
    ensures
        arguments_of(fields).len() == if has_name(fields, "limit"@) {
            fields.len()
        } else {
            fields.len() + 1
        },
{
}

/// The name of a component's list field.
pub open spec fn list_field_name(name: Seq<char>) -> Seq<char> {
    name + "Components"@
}

/// The arguments that the list field of a schema takes.
pub fn add_arguments(fields: &TypeMapping) -> (r: OrderedMap<String>)
    ensures
        r@ == arguments_of(type_entries(*fields)),
        r.wf(),
{
    let ghost schema = type_entries(*fields);
    let mut out: OrderedMap<String> = OrderedMap::new();
    let n: usize = types_len(fields);
    let mut i: usize = 0;
    while i < n
        invariant
            out.wf(),
            schema == type_entries(*fields),
            n == schema.len(),
            i <= n,
            out@ == schema.take(i as int),
        decreases n - i,
    {
        let entry = types_at(fields, i);
        proof {
            if has_name(out@, entry.0@) {
                let j = index_of(out@, entry.0@);
                assert(out@[j] == schema[j]);
                assert(schema[j].0 != entry.0@);
            }
            assert(schema.take(i as int).push(schema[i as int]) =~= schema.take(i + 1));
        }
        out.insert(String::from_str(entry.0), entry.1.clone());
        i += 1;
    }
    proof {
        assert(schema.take(i as int) =~= schema);
    }
    out.insert(String::from_str("limit"), String::from_str("Int"));
    out
}

/// Plans the list field of a component.
pub fn resolve_many(name: &str, type_label: &str, fields: &TypeMapping) -> (plan: FieldPlan)
    ensures
        plan.name@ == list_field_name(name@),
        plan.list_of@ == type_label@,
        plan.arguments@ == arguments_of(type_entries(*fields)),
        plan.arguments.wf(),
{
    FieldPlan {
        name: String::from_str(name).concat("Components"),
        list_of: String::from_str(type_label),
        arguments: add_arguments(fields),
    }
}

impl ComponentStateObject {
    /// A component of the given name, object type and schema.
    pub fn new(name: String, type_label: String, field_type_mapping: TypeMapping) -> (r: Self)
        ensures
            r.name == name,
            r.type_label == type_label,
            r.field_type_mapping == field_type_mapping,
    {
        Self { name, type_label, field_type_mapping }
    }

    /// The component's name.
    pub fn name(&self) -> (r: &str)
        ensures
            r@ == self.name@,
    {
        self.name.as_str()
    }

    /// The name of the component's object type.
    pub fn type_label(&self) -> (r: &str)
        ensures
            r@ == self.type_label@,
    {
        self.type_label.as_str()
    }

    /// The component's attribute schema.
    pub fn field_type_mapping(&self) -> (r: &TypeMapping)
        ensures
            r == &self.field_type_mapping,
    {
        &self.field_type_mapping
    }

    /// The fields that resolve this component: its list field.
    pub fn resolvers(&self) -> (r: Vec<FieldPlan>)
        ensures
            r@.len() == 1,
            r@[0].name@ == list_field_name(self.name@),
            r@[0].list_of@ == self.type_label@,
            r@[0].arguments@ == arguments_of(type_entries(self.field_type_mapping)),
            r@[0].arguments.wf(),
    {
        let mut fields: Vec<FieldPlan> = Vec::new();
        fields.push(
            resolve_many(self.name.as_str(), self.type_label.as_str(), &self.field_type_mapping),
        );
        fields
    }
}

} // verus!
