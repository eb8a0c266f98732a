use vstd::prelude::*;
use vstd::string::*;
use crate::error::{Error, ErrorModel};
use crate::ordered_map::{distinct_names, has_name, index_of, inserted, lemma_inserted, lookup, OrderedMap};
use crate::mapping::{type_entries, types_at, types_len, TypeMapping};
use crate::scalar::{Category, ScalarType};
use crate::text::{decimal, decimal_string};

verus! {

/// The row cap of a query whose arguments give no usable limit.
pub const DEFAULT_LIMIT: u64 = 10;

/// An incoming argument, as far as filters and the limit read it.
#[derive(Clone, Debug, PartialEq, Eq)]
pub enum ArgValue {
    /// A number that is an unsigned integer.
    Unsigned(u64),
    /// A string.
    Text(String),
    /// Any other value: null, a boolean, a negative or fractional number, a
    /// list, an object.
    Other,
}

/// The mathematical value of an [`ArgValue`].
pub enum ArgModel {
    Unsigned(u64),
    Text(Seq<char>),
    Other,
}

impl View for ArgValue {
    type V = ArgModel;

    open spec fn view(&self) -> ArgModel {
        match self {
            ArgValue::Unsigned(n) => ArgModel::Unsigned(*n),
            ArgValue::Text(s) => ArgModel::Text(s@),
            ArgValue::Other => ArgModel::Other,
        }
    }
}

/// The arguments of one field resolution, by name.
pub type ArgumentBag = OrderedMap<ArgValue>;

/// Equality filters: the text that an attribute's column must equal, by the
/// attribute's name.
pub type ComponentFilters = OrderedMap<String>;

/// The filter text of an argument given for attribute `name` of declared type
/// `ty`: the decimal numeral of an unsigned integer for a numeric attribute, the
/// string itself for any other. An argument of another form is invalid.
pub open spec fn coerced(name: Seq<char>, ty: Seq<char>, arg: ArgModel) -> Result<
    Seq<char>,
    ErrorModel,
> {
    match ScalarType::from_tag(ty) {
        None => Err(ErrorModel::UnknownType { tag: ty }),
        Some(scalar) => match (scalar.category() == Category::Numeric, arg) {
            (true, ArgModel::Unsigned(n)) => Ok(decimal(n as nat)),
            (false, ArgModel::Text(s)) => Ok(s),
            _ => Err(ErrorModel::InvalidArgument { name }),
        },
    }
}

/// The filters that a bag of arguments gives for a schema: one for each
/// attribute with an argument of its name, in schema order, or the first
/// failure.
pub open spec fn filters_of(
    fields: Seq<(Seq<char>, Seq<char>)>,
    args: Seq<(Seq<char>, ArgModel)>,
) -> Result<Seq<(Seq<char>, Seq<char>)>, ErrorModel>
    decreases fields.len(),
{
    if fields.len() == 0 {
        Ok(Seq::empty())
    } else {
        match filters_of(fields.drop_last(), args) {
            Err(e) => Err(e),
            Ok(done) => match lookup(args, fields.last().0) {
                None => Ok(done),
                Some(arg) => match coerced(fields.last().0, fields.last().1, arg) {
                    Err(e) => Err(e),
                    Ok(text) => Ok(inserted(done, fields.last().0, text)),
                },
            },
        }
    }
}

/// The row cap that a bag of arguments asks for: the default where the bag
/// holds no `limit`, the `limit` itself where it is an unsigned integer. A
/// `limit` of any other form is an invalid argument.
pub open spec fn limit_of(args: Seq<(Seq<char>, ArgModel)>) -> Result<u64, ErrorModel> {
    match lookup(args, "limit"@) {
        None => Ok(DEFAULT_LIMIT),
        Some(ArgModel::Unsigned(n)) => Ok(n),
        Some(_) => Err(ErrorModel::InvalidArgument { name: "limit"@ }),
    }
}

/// What a bag of arguments asks of a schema: the filters and the row cap. A
/// failure among the filters comes before a failure of the limit.
pub open spec fn parsed(
    fields: Seq<(Seq<char>, Seq<char>)>,
    args: Seq<(Seq<char>, ArgModel)>,
) -> Result<(Seq<(Seq<char>, Seq<char>)>, u64), ErrorModel> {
    match filters_of(fields, args) {
        Err(e) => Err(e),
        Ok(filters) => match limit_of(args) {
            Err(e) => Err(e),
            Ok(limit) => Ok((filters, limit)),
        },
    }
}

/// A failure among the first `k` attributes is the failure of the whole bag.
pub proof fn lemma_filters_prefix(
    fields: Seq<(Seq<char>, Seq<char>)>,
    args: Seq<(Seq<char>, ArgModel)>,
    k: int,
)
    requires
        0 <= k <= fields.len(),
        filters_of(fields.take(k), args) is Err,
    ensures
        filters_of(fields, args) == filters_of(fields.take(k), args),
    decreases fields.len(),
{
    if k == fields.len() {
        assert(fields.take(k) =~= fields);
    } else {
        assert(fields.drop_last().take(k) =~= fields.take(k));
        lemma_filters_prefix(fields.drop_last(), args, k);
    }
}

/// Arguments may be missing: a bag that names no attribute of the schema gives
/// no filter and no failure.
pub proof fn lemma_no_arguments_no_filters(
    fields: Seq<(Seq<char>, Seq<char>)>,
    args: Seq<(Seq<char>, ArgModel)>,
)
    requires
        forall|i: int| 0 <= i < fields.len() ==> !has_name(args, (#[trigger] fields[i]).0),
    ensures
        filters_of(fields, args) == Ok::<Seq<(Seq<char>, Seq<char>)>, ErrorModel>(Seq::empty()),
    decreases fields.len(),
{
    if fields.len() > 0 {
        let front = fields.drop_last();
        assert forall|i: int| 0 <= i < front.len() implies !has_name(
            args,
            (#[trigger] front[i]).0,
        ) by {
            assert(front[i] == fields[i]);
        }
        lemma_no_arguments_no_filters(front, args);
        assert(!has_name(args, fields[fields.len() - 1].0));
    }
}

/// Parsing fails only where an argument that is present cannot be coerced: an
/// attribute without an argument never raises an error.
pub proof fn lemma_failure_needs_argument(
    fields: Seq<(Seq<char>, Seq<char>)>,
    args: Seq<(Seq<char>, ArgModel)>,
)
    ensures
        filters_of(fields, args) is Err <==> exists|i: int|
            0 <= i < fields.len() && lookup(args, (#[trigger] fields[i]).0) is Some && coerced(
                fields[i].0,
                fields[i].1,
                lookup(args, fields[i].0)->Some_0,
            ) is Err,
    decreases fields.len(),
{
    let fails = |f: Seq<(Seq<char>, Seq<char>)>|
        exists|i: int|
            0 <= i < f.len() && lookup(args, (#[trigger] f[i]).0) is Some && coerced(
                f[i].0,
                f[i].1,
                lookup(args, f[i].0)->Some_0,
            ) is Err;
    if fields.len() > 0 {
        let front = fields.drop_last();
        let n = fields.len() - 1;
        lemma_failure_needs_argument(front, args);
        if fails(front) {
            let i = choose|i: int|
                0 <= i < front.len() && lookup(args, (#[trigger] front[i]).0) is Some && coerced(
                    front[i].0,
                    front[i].1,
                    lookup(args, front[i].0)->Some_0,
                ) is Err;
            assert(front[i] == fields[i]);
            assert(lookup(args, fields[i].0) is Some);
        }
        if fails(fields) {
            let i = choose|i: int|
                0 <= i < fields.len() && lookup(args, (#[trigger] fields[i]).0) is Some
                    && coerced(fields[i].0, fields[i].1, lookup(args, fields[i].0)->Some_0) is Err;
            if i < n {
                assert(front[i] == fields[i]);
                assert(lookup(args, front[i].0) is Some);
            }
        }
        assert(fields[n] == fields.last());
    }
}

/// An argument whose name is neither an attribute of the schema nor `limit` is
/// ignored: adding it to the bag changes neither the filters nor the limit.
pub proof fn lemma_unknown_argument_ignored(
    fields: Seq<(Seq<char>, Seq<char>)>,
    args: Seq<(Seq<char>, ArgModel)>,
    name: Seq<char>,
    value: ArgModel,
)
    requires
        distinct_names(args),
        !has_name(fields, name),
    ensures
        filters_of(fields, inserted(args, name, value)) == filters_of(fields, args),
        name != "limit"@ ==> limit_of(inserted(args, name, value)) == limit_of(args),
    decreases fields.len(),
{
    lemma_inserted(args, name, value);
    if fields.len() > 0 {
        let front = fields.drop_last();
        let n = fields.len() - 1;
        if has_name(front, name) {
            let i = index_of(front, name);
            assert(fields[i].0 == name);
        }
        lemma_unknown_argument_ignored(front, args, name, value);
        assert(fields[n].0 != name);
    }
}

/// Every filter belongs to an attribute of the schema that has an argument, and
/// no attribute is filtered twice.
pub proof fn lemma_filters_within_schema(
    fields: Seq<(Seq<char>, Seq<char>)>,
    args: Seq<(Seq<char>, ArgModel)>,
)
    requires
        filters_of(fields, args) is Ok,
    ensures
        distinct_names(filters_of(fields, args)->Ok_0),
        forall|j: int|
            0 <= j < filters_of(fields, args)->Ok_0.len() ==> {
                &&& has_name(fields, (#[trigger] filters_of(fields, args)->Ok_0[j]).0)
                &&& has_name(args, filters_of(fields, args)->Ok_0[j].0)
            },
    decreases fields.len(),
{
    if fields.len() > 0 {
        let front = fields.drop_last();
        let n = fields.len() - 1;
        let last = fields.last();
        lemma_filters_within_schema(front, args);
        let done = filters_of(front, args)->Ok_0;
        let out = filters_of(fields, args)->Ok_0;
        assert(fields[n] == last);
        assert forall|j: int| 0 <= j < done.len() implies has_name(fields, (#[trigger] done[j]).0) by {
            let i = index_of(front, done[j].0);
            assert(fields[i] == front[i]);
        }
        if lookup(args, last.0) is Some {
            let text = coerced(last.0, last.1, lookup(args, last.0)->Some_0)->Ok_0;
            lemma_inserted(done, last.0, text);
            assert forall|j: int| 0 <= j < out.len() implies {
                &&& has_name(fields, (#[trigger] out[j]).0)
                &&& has_name(args, out[j].0)
            } by {
                if has_name(done, last.0) {
                    if j != index_of(done, last.0) {
                        assert(out[j] == done[j]);
                    }
                } else {
                    if j < done.len() {
                        assert(out[j] == done[j]);
                    }
                }
            }
        }
    }
}

/// Coerces one argument to the filter text of its attribute.
pub fn coerce(name: &str, ty: &str, arg: &ArgValue) -> (r: Result<String, Error>)
    ensures
        match coerced(name@, ty@, arg@) {
            Ok(text) => r matches Ok(x) && x@ == text,
            Err(e) => r matches Err(x) && x@ == e,
        },
{
    let scalar = match ScalarType::from_str(ty) {
        Ok(t) => t,
        Err(e) => {
            return Err(e);
        },
    };
    if scalar.is_numeric_type() {
        match arg {
            ArgValue::Unsigned(n) => Ok(decimal_string(*n)),
            _ => Err(Error::InvalidArgument { name: String::from_str(name) }),
        }
    } else {
        match arg {
            ArgValue::Text(s) => Ok(s.clone()),
            _ => Err(Error::InvalidArgument { name: String::from_str(name) }),
        }
    }
}

/// Reads the filters and the row cap out of a bag of arguments.
///
/// Each attribute of the schema with an argument of its name gives one filter;
/// attributes without one are left out, and arguments that the schema does not
/// name are not looked at. The first argument that cannot be coerced fails the
/// whole call. The cap is the default where no `limit` is given; a `limit` that
/// is given must be an unsigned integer, else the call fails.
pub fn parse_inputs(args: &ArgumentBag, fields: &TypeMapping) -> (r: Result<
    (ComponentFilters, u64),
    Error,
>)
    requires
        args.wf(),
    ensures
        match parsed(type_entries(*fields), args@) {
            Ok(p) => r matches Ok(x) && x.0@ == p.0 && x.0.wf() && x.1 == p.1,
            Err(e) => r matches Err(x) && x@ == e,
        },
{
    let ghost schema = type_entries(*fields);
    let mut filters: ComponentFilters = OrderedMap::new();
    let n: usize = types_len(fields);
    let mut i: usize = 0;
    while i < n
        invariant
            args.wf(),
            filters.wf(),
            schema == type_entries(*fields),
            n == schema.len(),
            i <= n,
            filters_of(schema.take(i as int), args@) == Ok::<
                Seq<(Seq<char>, Seq<char>)>,
                ErrorModel,
            >(filters@),
        decreases n - i,
    {
        let entry = types_at(fields, i);
        proof {
            assert(schema.take(i + 1).drop_last() =~= schema.take(i as int));
            assert(schema.take(i + 1).last() == schema[i as int]);
        }
        match args.get(entry.0) {
            None => {},
            Some(arg) => match coerce(entry.0, entry.1.as_str(), arg) {
                Ok(text) => {
                    filters.insert(String::from_str(entry.0), text);
                },
                Err(e) => {
                    proof {
                        lemma_filters_prefix(schema, args@, i + 1);
                    }
                    return Err(e);
                },
            },
        }
        i += 1;
    }
    proof {
        assert(schema.take(i as int) =~= schema);
    }
    let limit: u64 = match args.get("limit") {
        None => DEFAULT_LIMIT,
        Some(ArgValue::Unsigned(n)) => *n,
        Some(_) => {
            return Err(Error::InvalidArgument { name: String::from_str("limit") });
        },
    };
    Ok((filters, limit))
}

} // verus!
