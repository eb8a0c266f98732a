use vstd::prelude::*;
use vstd::string::*;
use crate::error::{Error, ErrorModel};
use crate::mapping::{
    type_entries, types_at, types_len, value_entries, values_insert, values_new, TypeMapping,
    ValueMapping,
};
use crate::ordered_map::{
    distinct_names, has_name, index_of, inserted, lemma_inserted, lookup, OrderedMap,
};
use crate::scalar::{Category, ScalarType};
use crate::text::{column_name, prefixed};

verus! {

/// The stored integer that stands for `true` in a boolean column.
pub const BOOLEAN_TRUE: i64 = 1;

/// What a column of a stored row holds.
#[derive(Clone, Debug, PartialEq, Eq)]
pub enum StoredValue {
    Null,
    Integer(i64),
    Text(String),
    /// Anything the store can hold beside these: a real number, a blob.
    Other,
}

/// The mathematical value of a [`StoredValue`].
pub enum StoredModel {
    Null,
    Integer(i64),
    Text(Seq<char>),
    Other,
}

impl View for StoredValue {
    type V = StoredModel;

    open spec fn view(&self) -> StoredModel {
        match self {
            StoredValue::Null => StoredModel::Null,
            StoredValue::Integer(n) => StoredModel::Integer(*n),
            StoredValue::Text(s) => StoredModel::Text(s@),
            StoredValue::Other => StoredModel::Other,
        }
    }
}

/// A decoded attribute value.
#[derive(Clone, Debug, PartialEq, Eq)]
pub enum Value {
    Bool(bool),
    Number(i64),
    Text(String),
}

/// The mathematical value of a [`Value`].
pub enum ValueModel {
    Bool(bool),
    Number(i64),
    Text(Seq<char>),
}

impl View for Value {
    type V = ValueModel;

    open spec fn view(&self) -> ValueModel {
        match self {
            Value::Bool(b) => ValueModel::Bool(*b),
            Value::Number(n) => ValueModel::Number(*n),
            Value::Text(s) => ValueModel::Text(s@),
        }
    }
}

/// A raw row: what each column holds, by the column's name.
pub type Row = OrderedMap<StoredValue>;

/// What the column of attribute `name`, declared with tag `ty`, decodes to.
///
/// A boolean is true exactly when the stored integer is the encoding of true;
/// a number and a text pass through unchanged. A column that holds no value
/// reads as the store reads it: as the integer zero, or as the empty text. A
/// column that is missing or holds a value of another form is a decoding error
/// that names the attribute; a tag that names no scalar type fails before the
/// row is read.
pub open spec fn decoded(
    name: Seq<char>,
    ty: Seq<char>,
    row: Seq<(Seq<char>, StoredModel)>,
) -> Result<ValueModel, ErrorModel> {
    match ScalarType::from_tag(ty) {
        None => Err(ErrorModel::TypeNotFound { tag: ty }),
        Some(scalar) => {
            let stored = lookup(row, prefixed(name));
            match (scalar.category(), stored) {
                (Category::Boolean, Some(StoredModel::Integer(n))) => Ok(
                    ValueModel::Bool(n == BOOLEAN_TRUE),
                ),
                (Category::Boolean, Some(StoredModel::Null)) => Ok(ValueModel::Bool(false)),
                (Category::Numeric, Some(StoredModel::Integer(n))) => Ok(ValueModel::Number(n)),
                (Category::Numeric, Some(StoredModel::Null)) => Ok(ValueModel::Number(0)),
                (Category::Text, Some(StoredModel::Text(s))) => Ok(ValueModel::Text(s)),
                (Category::Text, Some(StoredModel::Null)) => Ok(ValueModel::Text(Seq::empty())),
                _ => Err(ErrorModel::Decode { attribute: name }),
            }
        },
    }
}

/// The value record of a row: each attribute decoded in schema order, or the
/// first failure.
pub open spec fn marshaled(
    fields: Seq<(Seq<char>, Seq<char>)>,
    row: Seq<(Seq<char>, StoredModel)>,
) -> Result<Seq<(Seq<char>, ValueModel)>, ErrorModel>
    decreases fields.len(),
{
    if fields.len() == 0 {
        Ok(Seq::empty())
    } else {
        match marshaled(fields.drop_last(), row) {
            Err(e) => Err(e),
            Ok(done) => match decoded(fields.last().0, fields.last().1, row) {
                Err(e) => Err(e),
                Ok(v) => Ok(inserted(done, fields.last().0, v)),
            },
        }
    }
}

/// A failure among the first `k` attributes is the failure of the whole row.
pub proof fn lemma_marshaled_prefix(
    fields: Seq<(Seq<char>, Seq<char>)>,
    row: Seq<(Seq<char>, StoredModel)>,
    k: int,
)
    requires
        0 <= k <= fields.len(),
        marshaled(fields.take(k), row) is Err,
    ensures
        marshaled(fields, row) == marshaled(fields.take(k), row),
    decreases fields.len(),
{
    if k == fields.len() {
        assert(fields.take(k) =~= fields);
    } else {
        assert(fields.drop_last().take(k) =~= fields.take(k));
        lemma_marshaled_prefix(fields.drop_last(), row, k);
    }
}

/// A value record follows its schema: where no attribute name occurs twice, it
/// has one entry per attribute, in schema order, each the decoded column.
pub proof fn lemma_marshaled_in_order(
    fields: Seq<(Seq<char>, Seq<char>)>,
    row: Seq<(Seq<char>, StoredModel)>,
)
    requires
        distinct_names(fields),
        marshaled(fields, row) is Ok,
    ensures
        marshaled(fields, row)->Ok_0.len() == fields.len(),
        distinct_names(marshaled(fields, row)->Ok_0),
        forall|i: int|
            0 <= i < fields.len() ==> {
                &&& (#[trigger] marshaled(fields, row)->Ok_0[i]).0 == fields[i].0
                &&& decoded(fields[i].0, fields[i].1, row) == Ok::<ValueModel, ErrorModel>(
                    marshaled(fields, row)->Ok_0[i].1,
                )
            },
    decreases fields.len(),
{
    if fields.len() > 0 {
        let front = fields.drop_last();
        let last = fields.last();
        lemma_marshaled_in_order(front, row);
        let done = marshaled(front, row)->Ok_0;
        let v = decoded(last.0, last.1, row)->Ok_0;
        if has_name(done, last.0) {
            let j = index_of(done, last.0);
            assert(done[j].0 == front[j].0);
            assert(fields[j].0 != fields[fields.len() - 1].0);
        }
        lemma_inserted(done, last.0, v);
        let out = marshaled(fields, row)->Ok_0;
        assert(out == done.push((last.0, v)));
        assert forall|i: int| 0 <= i < fields.len() implies {
            &&& (#[trigger] out[i]).0 == fields[i].0
            &&& decoded(fields[i].0, fields[i].1, row) == Ok::<ValueModel, ErrorModel>(out[i].1)
        } by {
            if i < front.len() {
                assert(out[i] == done[i]);
                assert(front[i] == fields[i]);
            }
        }
    }
}

/// Decodes the column of one attribute.
pub fn decode(name: &str, ty: &str, row: &Row) -> (r: Result<Value, Error>)
    requires
        row.wf(),
    ensures
        match decoded(name@, ty@, row@) {
            Ok(v) => r matches Ok(x) && x@ == v,
            Err(e) => r matches Err(x) && x@ == e,
        },
{
    let scalar = match ScalarType::from_str(ty) {
        Ok(t) => t,
        Err(_) => {
            return Err(Error::TypeNotFound { tag: String::from_str(ty) });
        },
    };
    let column = column_name(name);
    let stored = row.get(column.as_str());
    match scalar.kind() {
        Category::Boolean => match stored {
            Some(StoredValue::Integer(n)) => Ok(Value::Bool(*n == BOOLEAN_TRUE)),
            Some(StoredValue::Null) => Ok(Value::Bool(false)),
            _ => Err(Error::Decode { attribute: String::from_str(name) }),
        },
        Category::Numeric => match stored {
            Some(StoredValue::Integer(n)) => Ok(Value::Number(*n)),
            Some(StoredValue::Null) => Ok(Value::Number(0)),
            _ => Err(Error::Decode { attribute: String::from_str(name) }),
        },
        Category::Text => match stored {
            Some(StoredValue::Text(s)) => Ok(Value::Text(s.clone())),
            Some(StoredValue::Null) => Ok(Value::Text(String::new())),
            _ => Err(Error::Decode { attribute: String::from_str(name) }),
        },
    }
}

/// Decodes a raw row into a value record, attribute by attribute in schema
/// order. The first attribute that fails fails the whole row.
pub fn value_mapping_from_row(row: &Row, fields: &TypeMapping) -> (r: Result<ValueMapping, Error>)
    requires
        row.wf(),
    ensures
        match marshaled(type_entries(*fields), row@) {
            Ok(m) => r matches Ok(x) && value_entries(x) == m,
            Err(e) => r matches Err(x) && x@ == e,
        },
        r matches Ok(x) ==> value_entries(x).len() == type_entries(*fields).len() && forall|
            i: int,
        |
            0 <= i < type_entries(*fields).len() ==> {
                &&& (#[trigger] value_entries(x)[i]).0 == type_entries(*fields)[i].0
                &&& decoded(type_entries(*fields)[i].0, type_entries(*fields)[i].1, row@) == Ok::<
                    ValueModel,
                    ErrorModel,
                >(value_entries(x)[i].1)
            },
{
    let ghost schema = type_entries(*fields);
    let mut out: ValueMapping = values_new();
    let n: usize = types_len(fields);
    let mut i: usize = 0;
    while i < n
        invariant
            row.wf(),
            schema == type_entries(*fields),
            n == schema.len(),
            i <= n,
            marshaled(schema.take(i as int), row@) == Ok::<
                Seq<(Seq<char>, ValueModel)>,
                ErrorModel,
            >(value_entries(out)),
            forall|a: int, b: int|
                0 <= a < i && 0 <= b < n && a != b ==> (#[trigger] schema[a]).0 != (
                #[trigger] schema[b]).0,
        decreases n - i,
    {
        let entry = types_at(fields, i);
        proof {
            assert(schema.take(i + 1).drop_last() =~= schema.take(i as int));
            assert(schema.take(i + 1).last() == schema[i as int]);
        }
        match decode(entry.0, entry.1.as_str(), row) {
            Ok(value) => {
                values_insert(&mut out, entry.0, value);
            },
            Err(e) => {
                proof {
                    lemma_marshaled_prefix(schema, row@, i + 1);
                }
                return Err(e);
            },
        }
        i += 1;
    }
    proof {
        assert(schema.take(i as int) =~= schema);
        lemma_marshaled_in_order(schema, row@);
    }
    Ok(out)
}

/// Decodes every row of a result, in order. One row that fails fails the whole
/// result: no partial list is handed out.
pub fn component_states_from_rows(rows: &Vec<Row>, fields: &TypeMapping) -> (r: Result<
    Vec<ValueMapping>,
    Error,
>)
    requires
        forall|i: int| 0 <= i < rows@.len() ==> (#[trigger] rows@[i]).wf(),
    ensures
        match r {
            Ok(list) => {
                &&& list@.len() == rows@.len()
                &&& forall|i: int|
                    0 <= i < rows@.len() ==> {
                        &&& marshaled(type_entries(*fields), rows@[i]@) == Ok::<
                            Seq<(Seq<char>, ValueModel)>,
                            ErrorModel,
                        >(value_entries(#[trigger] list@[i]))
                    }
            },
            Err(e) => exists|k: int|
                {
                    &&& 0 <= k < rows@.len()
                    &&& #[trigger] marshaled(type_entries(*fields), rows@[k]@) == Err::<
                        Seq<(Seq<char>, ValueModel)>,
                        ErrorModel,
                    >(e@)
                    &&& forall|i: int|
                        0 <= i < k ==> (#[trigger] marshaled(type_entries(*fields), rows@[i]@)) is Ok
                },
        },
{
    let mut list: Vec<ValueMapping> = Vec::new();
    let mut k: usize = 0;
    while k < rows.len()
        invariant
            forall|i: int| 0 <= i < rows@.len() ==> (#[trigger] rows@[i]).wf(),
            k <= rows@.len(),
            list@.len() == k,
            forall|i: int|
                0 <= i < k ==> {
                    &&& marshaled(type_entries(*fields), rows@[i]@) == Ok::<
                        Seq<(Seq<char>, ValueModel)>,
                        ErrorModel,
                    >(value_entries(#[trigger] list@[i]))
                },
        decreases rows@.len() - k,
    {
        match value_mapping_from_row(&rows[k], fields) {
            Ok(record) => {
                list.push(record);
            },
            Err(e) => {
                assert forall|i: int| 0 <= i < k implies (#[trigger] marshaled(
                    type_entries(*fields),
                    rows@[i]@,
                )) is Ok by {
                    assert(marshaled(type_entries(*fields), rows@[i]@) == Ok::<
                        Seq<(Seq<char>, ValueModel)>,
                        ErrorModel,
                    >(value_entries(list@[i])));
                }
                assert(marshaled(type_entries(*fields), rows@[k as int]@) == Err::<
                    Seq<(Seq<char>, ValueModel)>,
                    ErrorModel,
                >(e@));
                return Err(e);
            },
        }
        k += 1;
    }
    Ok(list)
}

/// Decodes the result of a lookup by identifier. Anything but exactly one row
/// is an absence, not a failure.
pub fn component_state_from_rows(rows: &Vec<Row>, fields: &TypeMapping) -> (r: Result<
    Option<ValueMapping>,
    Error,
>)
    requires
        forall|i: int| 0 <= i < rows@.len() ==> (#[trigger] rows@[i]).wf(),
    ensures
        rows@.len() != 1 ==> r matches Ok(None),
        rows@.len() == 1 ==> match marshaled(type_entries(*fields), rows@[0]@) {
            Ok(m) => r matches Ok(Some(x)) && value_entries(x) == m,
            Err(e) => r matches Err(x) && x@ == e,
        },
{
    if rows.len() != 1 {
        return Ok(None);
    }
    match value_mapping_from_row(&rows[0], fields) {
        Ok(record) => Ok(Some(record)),
        Err(e) => Err(e),
    }
}

/// How a decoded value is stored: a boolean as the integer 1 or 0, a number and
/// a text as they are.
pub open spec fn encoded(value: ValueModel) -> StoredModel {
    match value {
        ValueModel::Bool(b) => StoredModel::Integer(
            if b {
                BOOLEAN_TRUE
            } else {
                0i64
            },
        ),
        ValueModel::Number(n) => StoredModel::Integer(n),
        ValueModel::Text(s) => StoredModel::Text(s),
    }
}

/// The stored form of a decoded value.
pub fn encode(value: &Value) -> (s: StoredValue)
    ensures
        s@ == encoded(value@),
{
    match value {
        Value::Bool(b) => StoredValue::Integer(
            if *b {
                BOOLEAN_TRUE
            } else {
                0
            },
        ),
        Value::Number(n) => StoredValue::Integer(*n),
        Value::Text(s) => StoredValue::Text(s.clone()),
    }
}

/// Whether a stored value is one that the store holds in a column of the given
/// category: a boolean column holds only the integers 0 and 1.
pub open spec fn well_stored(category: Category, stored: StoredModel) -> bool {
    match (category, stored) {
        (Category::Boolean, StoredModel::Integer(n)) => n == 0 || n == BOOLEAN_TRUE,
        (Category::Numeric, StoredModel::Integer(_)) => true,
        (Category::Text, StoredModel::Text(_)) => true,
        _ => false,
    }
}

/// Decoding is the inverse of the storage encoding: a column that holds a well
/// stored value decodes to a value whose stored form is that same value.
pub proof fn lemma_encode_after_decode(
    name: Seq<char>,
    ty: Seq<char>,
    row: Seq<(Seq<char>, StoredModel)>,
)
    requires
        ScalarType::from_tag(ty) is Some,
        lookup(row, prefixed(name)) is Some,
        well_stored(
            ScalarType::from_tag(ty)->Some_0.category(),
            lookup(row, prefixed(name))->Some_0,
        ),
    ensures
        decoded(name, ty, row) is Ok,
        encoded(decoded(name, ty, row)->Ok_0) == lookup(
            row,
            prefixed(name),
        )->Some_0,
{
}

/// Encoding is the inverse of decoding: a column that holds the stored form of
/// a value of the attribute's category decodes to that value.
pub proof fn lemma_decode_after_encode(
    name: Seq<char>,
    ty: Seq<char>,
    row: Seq<(Seq<char>, StoredModel)>,
    value: ValueModel,
)
    requires
        ScalarType::from_tag(ty) is Some,
        lookup(row, prefixed(name)) == Some(encoded(value)),
        match ScalarType::from_tag(ty)->Some_0.category() {
            Category::Boolean => value is Bool,
            Category::Numeric => value is Number,
            Category::Text => value is Text,
        },
    ensures
        decoded(name, ty, row) == Ok::<ValueModel, ErrorModel>(value),
{
}

/// A boolean column decodes to true exactly when it holds the integer 1: every
/// other stored integer decodes to false, and none fails.
pub proof fn lemma_boolean_decoding(
    name: Seq<char>,
    ty: Seq<char>,
    row: Seq<(Seq<char>, StoredModel)>,
    n: i64,
)
    requires
        ScalarType::from_tag(ty) == Some(ScalarType::Bool),
        lookup(row, prefixed(name)) == Some(StoredModel::Integer(n)),
    ensures
        decoded(name, ty, row) == Ok::<ValueModel, ErrorModel>(ValueModel::Bool(n == 1)),
{
}

} // verus!
