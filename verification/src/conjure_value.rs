use vstd::prelude::*;
use crate::outgoing::{is_valid_token68, valid_token68};
use crate::text::{parse_i64, spec_parse_int, str_eq, views};

verus! {

broadcast use vstd::string::group_string_axioms;

/// A Conjure primitive type.
#[derive(Copy, Clone, PartialEq, Eq, Structural)]
pub enum PrimitiveType {
    Safelong,
    Integer,
    Double,
    String,
    Binary,
    Boolean,
    Uuid,
    Rid,
    Bearertoken,
    Datetime,
    Any,
}

/// A field of an object, or a variant of a union: its name and its type.
pub struct FieldDefinition {
    pub field_name: String,
    pub type_: ResolvedType,
}

/// A Conjure type with every reference resolved.
pub enum ResolvedType {
    Object(Vec<FieldDefinition>),
    Enum(Vec<String>),
    Union(Vec<FieldDefinition>),
    Primitive(PrimitiveType),
    Optional(Box<ResolvedType>),
    List(Box<ResolvedType>),
    SetOf(Box<ResolvedType>),
    MapOf(Box<ResolvedType>, Box<ResolvedType>),
}

/// The content of a `ResolvedType`.
pub enum TypeView {
    Object(Seq<(Seq<char>, TypeView)>),
    Enum(Seq<Seq<char>>),
    Union(Seq<(Seq<char>, TypeView)>),
    Primitive(PrimitiveType),
    Optional(Box<TypeView>),
    List(Box<TypeView>),
    SetOf(Box<TypeView>),
    MapOf(Box<TypeView>, Box<TypeView>),
}

/// The content of a list of field definitions.
pub open spec fn fields_view(fields: Seq<FieldDefinition>) -> Seq<(Seq<char>, TypeView)>
    decreases fields,
{
    Seq::new(
        fields.len(),
        |i: int|
            if 0 <= i < fields.len() {
                (fields[i].field_name@, type_view(fields[i].type_))
            } else {
                (Seq::empty(), TypeView::Primitive(PrimitiveType::Any))
            },
    )
}

/// The content of a type.
pub open spec fn type_view(t: ResolvedType) -> TypeView
    decreases t,
{
    match t {
        ResolvedType::Object(fields) => TypeView::Object(fields_view(fields@)),
        ResolvedType::Enum(values) => TypeView::Enum(views(values@)),
        ResolvedType::Union(variants) => TypeView::Union(fields_view(variants@)),
        ResolvedType::Primitive(p) => TypeView::Primitive(p),
        ResolvedType::Optional(item) => TypeView::Optional(Box::new(type_view(*item))),
        ResolvedType::List(item) => TypeView::List(Box::new(type_view(*item))),
        ResolvedType::SetOf(item) => TypeView::SetOf(Box::new(type_view(*item))),
        ResolvedType::MapOf(key, value) => TypeView::MapOf(
            Box::new(type_view(*key)),
            Box::new(type_view(*value)),
        ),
    }
}

impl View for ResolvedType {
    type V = TypeView;

    open spec fn view(&self) -> TypeView {
        type_view(*self)
    }
}

/// A JSON value as it was read. A number carries its value where it is an integer that fits an
/// `i64`, and the text of its nearest double-precision value.
pub enum JsonValue {
    Null,
    Bool(bool),
    Number { integer: Option<i64>, double: String },
    String(String),
    Array(Vec<JsonValue>),
    Object(Vec<(String, JsonValue)>),
}

/// The content of a `JsonValue`.
pub enum JsonView {
    Null,
    Bool(bool),
    Number(Option<int>, Seq<char>),
    Str(Seq<char>),
    Array(Seq<JsonView>),
    Object(Seq<(Seq<char>, JsonView)>),
}

/// The contents of a list of JSON values.
pub open spec fn array_view(items: Seq<JsonValue>) -> Seq<JsonView>
    decreases items,
{
    Seq::new(
        items.len(),
        |i: int|
            if 0 <= i < items.len() {
                json_view(items[i])
            } else {
                JsonView::Null
            },
    )
}

/// The contents of the entries of a JSON object.
pub open spec fn object_view(entries: Seq<(String, JsonValue)>) -> Seq<(Seq<char>, JsonView)>
    decreases entries,
{
    Seq::new(
        entries.len(),
        |i: int|
            if 0 <= i < entries.len() {
                (entries[i].0@, json_view(entries[i].1))
            } else {
                (Seq::empty(), JsonView::Null)
            },
    )
}

/// The content of a JSON value.
pub open spec fn json_view(v: JsonValue) -> JsonView
    decreases v,
{
    match v {
        JsonValue::Null => JsonView::Null,
        JsonValue::Bool(b) => JsonView::Bool(b),
        JsonValue::Number { integer, double } => JsonView::Number(
            match integer {
                Some(i) => Some(i as int),
                None => None,
            },
            double@,
        ),
        JsonValue::String(s) => JsonView::Str(s@),
        JsonValue::Array(items) => JsonView::Array(array_view(items@)),
        JsonValue::Object(entries) => JsonView::Object(object_view(entries@)),
    }
}

impl View for JsonValue {
    type V = JsonView;

    open spec fn view(&self) -> JsonView {
        json_view(*self)
    }
}

/// A Conjure value.
pub enum ConjureValue {
    /// An `integer` or a `safelong`.
    Integer(i64),
    /// A `double`, as the text of its value.
    Double(String),
    Boolean(bool),
    /// A `string`, or a value of another primitive type written as a string (`binary`, `uuid`,
    /// `rid`, `bearertoken`, `datetime`), as its text.
    Text(String),
    Any(JsonValue),
    Optional(Option<Box<ConjureValue>>),
    List(Vec<ConjureValue>),
    SetOf(Vec<ConjureValue>),
    MapOf(Vec<(ConjureValue, ConjureValue)>),
    /// The values of an object's fields, in the order of their definitions.
    Object(Vec<ConjureValue>),
    Enum(String),
    /// A union's variant and its value.
    Union(String, Box<ConjureValue>),
}

/// The content of a `ConjureValue`. Sets and maps keep the order in which they were read; `same`
/// compares them without regard to it.
pub enum ConjureView {
    Integer(int),
    Double(Seq<char>),
    Boolean(bool),
    Text(Seq<char>),
    Any(JsonView),
    Optional(Option<Box<ConjureView>>),
    List(Seq<ConjureView>),
    SetOf(Seq<ConjureView>),
    MapOf(Seq<(ConjureView, ConjureView)>),
    Object(Seq<ConjureView>),
    Enum(Seq<char>),
    Union(Seq<char>, Box<ConjureView>),
}

/// The contents of a list of values.
pub open spec fn values_view(items: Seq<ConjureValue>) -> Seq<ConjureView>
    decreases items,
{
    Seq::new(
        items.len(),
        |i: int|
            if 0 <= i < items.len() {
                value_view(items[i])
            } else {
                ConjureView::Boolean(false)
            },
    )
}

/// The contents of a list of pairs of values.
pub open spec fn pairs_view(items: Seq<(ConjureValue, ConjureValue)>) -> Seq<(ConjureView, ConjureView)>
    decreases items,
{
    Seq::new(
        items.len(),
        |i: int|
            if 0 <= i < items.len() {
                (value_view(items[i].0), value_view(items[i].1))
            } else {
                (ConjureView::Boolean(false), ConjureView::Boolean(false))
            },
    )
}

/// The content of a value.
pub open spec fn value_view(c: ConjureValue) -> ConjureView
    decreases c,
{
    match c {
        ConjureValue::Integer(i) => ConjureView::Integer(i as int),
        ConjureValue::Double(d) => ConjureView::Double(d@),
        ConjureValue::Boolean(b) => ConjureView::Boolean(b),
        ConjureValue::Text(s) => ConjureView::Text(s@),
        ConjureValue::Any(j) => ConjureView::Any(json_view(j)),
        ConjureValue::Optional(o) => ConjureView::Optional(
            match o {
                Some(b) => Some(Box::new(value_view(*b))),
                None => None,
            },
        ),
        ConjureValue::List(items) => ConjureView::List(values_view(items@)),
        ConjureValue::SetOf(items) => ConjureView::SetOf(values_view(items@)),
        ConjureValue::MapOf(items) => ConjureView::MapOf(pairs_view(items@)),
        ConjureValue::Object(items) => ConjureView::Object(values_view(items@)),
        ConjureValue::Enum(s) => ConjureView::Enum(s@),
        ConjureValue::Union(variant, b) => ConjureView::Union(variant@, Box::new(value_view(*b))),
    }
}

impl View for ConjureValue {
    type V = ConjureView;

    open spec fn view(&self) -> ConjureView {
        value_view(*self)
    }
}

/// Whether two values are the same: lists and objects element by element, sets and maps
/// without regard to order, a union by its variant and value, and anything else by equality.
pub open spec fn same(a: ConjureView, b: ConjureView) -> bool
    decreases a, 0int,
{
    match a {
        ConjureView::Optional(oa) => match b {
            ConjureView::Optional(ob) => match oa {
                Some(x) => match ob {
                    Some(y) => same(*x, *y),
                    None => false,
                },
                None => ob is None,
            },
            _ => false,
        },
        ConjureView::List(xs) => match b {
            ConjureView::List(ys) => same_each(xs, ys),
            _ => false,
        },
        ConjureView::Object(xs) => match b {
            ConjureView::Object(ys) => same_each(xs, ys),
            _ => false,
        },
        ConjureView::SetOf(xs) => match b {
            ConjureView::SetOf(ys) => each_has_same(xs, ys) && each_has_same_in(xs, ys),
            _ => false,
        },
        ConjureView::MapOf(ps) => match b {
            ConjureView::MapOf(qs) => each_pair_has_same(ps, qs) && each_pair_has_same_in(ps, qs),
            _ => false,
        },
        ConjureView::Union(va, x) => match b {
            ConjureView::Union(vb, y) => va == vb && same(*x, *y),
            _ => false,
        },
        _ => a == b,
    }
}

/// Whether two lists are as long as each other and the same item by item.
pub open spec fn same_each(xs: Seq<ConjureView>, ys: Seq<ConjureView>) -> bool
    decreases xs, 0int,
{
    if xs.len() == 0 {
        ys.len() == 0
    } else {
        &&& ys.len() == xs.len()
        &&& same_each(xs.drop_last(), ys.drop_last())
        &&& same(xs[xs.len() - 1], ys[ys.len() - 1])
    }
}

/// Whether some item of `ys` is the same as `x`.
pub open spec fn has_same(x: ConjureView, ys: Seq<ConjureView>) -> bool
    decreases x, ys.len(),
{
    if ys.len() == 0 {
        false
    } else {
        has_same(x, ys.drop_last()) || same(x, ys[ys.len() - 1])
    }
}

/// Whether each item of `xs` is the same as some item of `ys`.
pub open spec fn each_has_same(xs: Seq<ConjureView>, ys: Seq<ConjureView>) -> bool
    decreases xs, 0int,
{
    if xs.len() == 0 {
        true
    } else {
        each_has_same(xs.drop_last(), ys) && has_same(xs[xs.len() - 1], ys)
    }
}

/// Whether some item of `xs` is the same as `y`.
pub open spec fn has_same_in(xs: Seq<ConjureView>, y: ConjureView) -> bool
    decreases xs, 0int,
{
    if xs.len() == 0 {
        false
    } else {
        has_same_in(xs.drop_last(), y) || same(xs[xs.len() - 1], y)
    }
}

/// Whether each item of `ys` is the same as some item of `xs`.
pub open spec fn each_has_same_in(xs: Seq<ConjureView>, ys: Seq<ConjureView>) -> bool
    decreases xs, ys.len() + 1,
{
    if ys.len() == 0 {
        true
    } else {
        each_has_same_in(xs, ys.drop_last()) && has_same_in(xs, ys[ys.len() - 1])
    }
}

/// Whether some entry of `qs` has the same key and value as `p`.
pub open spec fn has_same_pair(p: (ConjureView, ConjureView), qs: Seq<(ConjureView, ConjureView)>) -> bool
    decreases p, qs.len(),
{
    if qs.len() == 0 {
        false
    } else {
        has_same_pair(p, qs.drop_last()) || (same(p.0, qs[qs.len() - 1].0) && same(p.1, qs[qs.len() - 1].1))
    }
}

/// Whether each entry of `ps` has the same key and value as some entry of `qs`.
pub open spec fn each_pair_has_same(ps: Seq<(ConjureView, ConjureView)>, qs: Seq<(ConjureView, ConjureView)>) -> bool
    decreases ps, 0int,
{
    if ps.len() == 0 {
        true
    } else {
        each_pair_has_same(ps.drop_last(), qs) && has_same_pair(ps[ps.len() - 1], qs)
    }
}

/// Whether some entry of `ps` has the same key and value as `q`.
pub open spec fn has_same_pair_in(ps: Seq<(ConjureView, ConjureView)>, q: (ConjureView, ConjureView)) -> bool
    decreases ps, 0int,
{
    if ps.len() == 0 {
        false
    } else {
        has_same_pair_in(ps.drop_last(), q) || (same(ps[ps.len() - 1].0, q.0) && same(ps[ps.len() - 1].1, q.1))
    }
}

/// Whether each entry of `qs` has the same key and value as some entry of `ps`.
pub open spec fn each_pair_has_same_in(ps: Seq<(ConjureView, ConjureView)>, qs: Seq<(ConjureView, ConjureView)>) -> bool
    decreases ps, qs.len() + 1,
{
    if qs.len() == 0 {
        true
    } else {
        each_pair_has_same_in(ps, qs.drop_last()) && has_same_pair_in(ps, qs[qs.len() - 1])
    }
}

proof fn lemma_same_each(xs: Seq<ConjureView>, ys: Seq<ConjureView>)
    ensures
        same_each(xs, ys) <==> (xs.len() == ys.len() && forall|i: int| 0 <= i < xs.len() ==> #[trigger] same(xs[i], ys[i])),
    decreases xs.len(),
{
    if xs.len() > 0 && ys.len() == xs.len() {
        let (dx, dy) = (xs.drop_last(), ys.drop_last());
        lemma_same_each(dx, dy);
        if same_each(xs, ys) {
            assert forall|i: int| 0 <= i < xs.len() implies #[trigger] same(xs[i], ys[i]) by {
                if i < xs.len() - 1 {
                    assert(same(dx[i], dy[i]));
                }
            }
        }
        if forall|i: int| 0 <= i < xs.len() ==> #[trigger] same(xs[i], ys[i]) {
            assert forall|i: int| 0 <= i < dx.len() implies #[trigger] same(dx[i], dy[i]) by {
                assert(same(xs[i], ys[i]));
            }
            assert(same(xs[xs.len() - 1], ys[ys.len() - 1]));
        }
    }
}

proof fn lemma_has_same(x: ConjureView, ys: Seq<ConjureView>)
    ensures
        has_same(x, ys) <==> exists|j: int| 0 <= j < ys.len() && #[trigger] same(x, ys[j]),
    decreases ys.len(),
{
    if ys.len() > 0 {
        let d = ys.drop_last();
        lemma_has_same(x, d);
        assert(has_same(x, ys) == (has_same(x, d) || same(x, ys[ys.len() - 1])));
        if has_same(x, d) {
            let j = choose|j: int| 0 <= j < d.len() && #[trigger] same(x, d[j]);
            assert(same(x, ys[j]));
        }
        if exists|j: int| 0 <= j < ys.len() && #[trigger] same(x, ys[j]) {
            let j = choose|j: int| 0 <= j < ys.len() && #[trigger] same(x, ys[j]);
            if j < ys.len() - 1 {
                assert(same(x, d[j]));
            }
        }
    }
}

proof fn lemma_has_same_in(xs: Seq<ConjureView>, y: ConjureView)
    ensures
        has_same_in(xs, y) <==> exists|i: int| 0 <= i < xs.len() && #[trigger] same(xs[i], y),
    decreases xs.len(),
{
    if xs.len() > 0 {
        let d = xs.drop_last();
        lemma_has_same_in(d, y);
        assert(has_same_in(xs, y) == (has_same_in(d, y) || same(xs[xs.len() - 1], y)));
        if has_same_in(d, y) {
            let i = choose|i: int| 0 <= i < d.len() && #[trigger] same(d[i], y);
            assert(same(xs[i], y));
        }
        if exists|i: int| 0 <= i < xs.len() && #[trigger] same(xs[i], y) {
            let i = choose|i: int| 0 <= i < xs.len() && #[trigger] same(xs[i], y);
            if i < xs.len() - 1 {
                assert(same(d[i], y));
            }
        }
    }
}

proof fn lemma_each_has_same(xs: Seq<ConjureView>, ys: Seq<ConjureView>)
    ensures
        each_has_same(xs, ys) <==> forall|i: int| 0 <= i < xs.len() ==> #[trigger] has_same(xs[i], ys),
    decreases xs.len(),
{
    if xs.len() > 0 {
        let d = xs.drop_last();
        lemma_each_has_same(d, ys);
        if each_has_same(xs, ys) {
            assert forall|i: int| 0 <= i < xs.len() implies #[trigger] has_same(xs[i], ys) by {
                if i < xs.len() - 1 {
                    assert(has_same(d[i], ys));
                }
            }
        }
        if forall|i: int| 0 <= i < xs.len() ==> #[trigger] has_same(xs[i], ys) {
            assert forall|i: int| 0 <= i < d.len() implies #[trigger] has_same(d[i], ys) by {
                assert(has_same(xs[i], ys));
            }
            assert(has_same(xs[xs.len() - 1], ys));
        }
    }
}

proof fn lemma_each_has_same_in(xs: Seq<ConjureView>, ys: Seq<ConjureView>)
    ensures
        each_has_same_in(xs, ys) <==> forall|j: int| 0 <= j < ys.len() ==> #[trigger] has_same_in(xs, ys[j]),
    decreases ys.len(),
{
    if ys.len() > 0 {
        let d = ys.drop_last();
        lemma_each_has_same_in(xs, d);
        if each_has_same_in(xs, ys) {
            assert forall|j: int| 0 <= j < ys.len() implies #[trigger] has_same_in(xs, ys[j]) by {
                if j < ys.len() - 1 {
                    assert(has_same_in(xs, d[j]));
                }
            }
        }
        if forall|j: int| 0 <= j < ys.len() ==> #[trigger] has_same_in(xs, ys[j]) {
            assert forall|j: int| 0 <= j < d.len() implies #[trigger] has_same_in(xs, d[j]) by {
                assert(has_same_in(xs, ys[j]));
            }
            assert(has_same_in(xs, ys[ys.len() - 1]));
        }
    }
}

proof fn lemma_has_same_pair(p: (ConjureView, ConjureView), qs: Seq<(ConjureView, ConjureView)>)
    ensures
        has_same_pair(p, qs) <==> exists|j: int| 0 <= j < qs.len() && #[trigger] same(p.0, qs[j].0) && same(p.1, qs[j].1),
    decreases qs.len(),
{
    if qs.len() > 0 {
        let d = qs.drop_last();
        lemma_has_same_pair(p, d);
        assert(has_same_pair(p, qs) == (has_same_pair(p, d) || (same(p.0, qs[qs.len() - 1].0) && same(p.1, qs[qs.len() - 1].1))));
        if has_same_pair(p, d) {
            let j = choose|j: int| 0 <= j < d.len() && #[trigger] same(p.0, d[j].0) && same(p.1, d[j].1);
            assert(same(p.0, qs[j].0) && same(p.1, qs[j].1));
        }
        if exists|j: int| 0 <= j < qs.len() && #[trigger] same(p.0, qs[j].0) && same(p.1, qs[j].1) {
            let j = choose|j: int| 0 <= j < qs.len() && #[trigger] same(p.0, qs[j].0) && same(p.1, qs[j].1);
            if j < qs.len() - 1 {
                assert(same(p.0, d[j].0) && same(p.1, d[j].1));
            }
        }
    }
}

proof fn lemma_has_same_pair_in(ps: Seq<(ConjureView, ConjureView)>, q: (ConjureView, ConjureView))
    ensures
        has_same_pair_in(ps, q) <==> exists|i: int| 0 <= i < ps.len() && #[trigger] same(ps[i].0, q.0) && same(ps[i].1, q.1),
    decreases ps.len(),
{
    if ps.len() > 0 {
        let d = ps.drop_last();
        lemma_has_same_pair_in(d, q);
        assert(has_same_pair_in(ps, q) == (has_same_pair_in(d, q) || (same(ps[ps.len() - 1].0, q.0) && same(ps[ps.len() - 1].1, q.1))));
        if has_same_pair_in(d, q) {
            let i = choose|i: int| 0 <= i < d.len() && #[trigger] same(d[i].0, q.0) && same(d[i].1, q.1);
            assert(same(ps[i].0, q.0) && same(ps[i].1, q.1));
        }
        if exists|i: int| 0 <= i < ps.len() && #[trigger] same(ps[i].0, q.0) && same(ps[i].1, q.1) {
            let i = choose|i: int| 0 <= i < ps.len() && #[trigger] same(ps[i].0, q.0) && same(ps[i].1, q.1);
            if i < ps.len() - 1 {
                assert(same(d[i].0, q.0) && same(d[i].1, q.1));
            }
        }
    }
}

proof fn lemma_each_pair_has_same(ps: Seq<(ConjureView, ConjureView)>, qs: Seq<(ConjureView, ConjureView)>)
    ensures
        each_pair_has_same(ps, qs) <==> forall|i: int| 0 <= i < ps.len() ==> #[trigger] has_same_pair(ps[i], qs),
    decreases ps.len(),
{
    if ps.len() > 0 {
        let d = ps.drop_last();
        lemma_each_pair_has_same(d, qs);
        if each_pair_has_same(ps, qs) {
            assert forall|i: int| 0 <= i < ps.len() implies #[trigger] has_same_pair(ps[i], qs) by {
                if i < ps.len() - 1 {
                    assert(has_same_pair(d[i], qs));
                }
            }
        }
        if forall|i: int| 0 <= i < ps.len() ==> #[trigger] has_same_pair(ps[i], qs) {
            assert forall|i: int| 0 <= i < d.len() implies #[trigger] has_same_pair(d[i], qs) by {
                assert(has_same_pair(ps[i], qs));
            }
            assert(has_same_pair(ps[ps.len() - 1], qs));
        }
    }
}

proof fn lemma_each_pair_has_same_in(ps: Seq<(ConjureView, ConjureView)>, qs: Seq<(ConjureView, ConjureView)>)
    ensures
        each_pair_has_same_in(ps, qs) <==> forall|j: int| 0 <= j < qs.len() ==> #[trigger] has_same_pair_in(ps, qs[j]),
    decreases qs.len(),
{
    if qs.len() > 0 {
        let d = qs.drop_last();
        lemma_each_pair_has_same_in(ps, d);
        if each_pair_has_same_in(ps, qs) {
            assert forall|j: int| 0 <= j < qs.len() implies #[trigger] has_same_pair_in(ps, qs[j]) by {
                if j < qs.len() - 1 {
                    assert(has_same_pair_in(ps, d[j]));
                }
            }
        }
        if forall|j: int| 0 <= j < qs.len() ==> #[trigger] has_same_pair_in(ps, qs[j]) {
            assert forall|j: int| 0 <= j < d.len() implies #[trigger] has_same_pair_in(ps, d[j]) by {
                assert(has_same_pair_in(ps, qs[j]));
            }
            assert(has_same_pair_in(ps, qs[qs.len() - 1]));
        }
    }
}

/// Whether a primitive type is written as a JSON string and read as its text.
pub open spec fn is_text(p: PrimitiveType) -> bool {
    match p {
        PrimitiveType::String | PrimitiveType::Binary | PrimitiveType::Uuid | PrimitiveType::Rid
        | PrimitiveType::Bearertoken | PrimitiveType::Datetime => true,
        _ => false,
    }
}

/// The bytes that the text `text` decodes to as standard base64 with padding, if it is such text.
pub uninterp spec fn base64_decoded(text: Seq<char>) -> Option<Seq<u8>>;

/// Decodes standard base64.
///
/// Calls `base64::Engine::decode` on `base64::engine::general_purpose::STANDARD`, the standard
/// alphabet with padding; the outcome depends on the text alone and is named.
#[verifier::external_body]
fn decode_base64(text: &str) -> (res: Option<Vec<u8>>)
    ensures
        match res {
            Some(b) => base64_decoded(text@) == Some(b@),
            None => base64_decoded(text@) is None,
        },
{
    base64::Engine::decode(&base64::engine::general_purpose::STANDARD, text).ok()
}

/// The hyphenated lowercase form of the UUID that `uuid::Uuid::parse_str` reads from `text`, if
/// it reads one.
pub uninterp spec fn uuid_normalized(text: Seq<char>) -> Option<Seq<char>>;

/// Reads a UUID.
///
/// Calls `uuid::Uuid::parse_str`, which accepts the simple, hyphenated, braced and URN forms in
/// either case, and writes the UUID read in its hyphenated form; the outcome depends on the text
/// alone and is named.
#[verifier::external_body]
fn parse_uuid(text: &str) -> (res: Option<String>)
    ensures
        match res {
            Some(u) => uuid_normalized(text@) == Some(u@),
            None => uuid_normalized(text@) is None,
        },
{
    match uuid::Uuid::parse_str(text) {
        Ok(u) => Some(u.hyphenated().to_string()),
        Err(_) => None,
    }
}

/// Reads text as a value of a primitive type written as text: a binary value must be standard
/// base64, a UUID is read as a UUID and kept in its hyphenated form, and a bearer token must be
/// a valid token; a string, a resource identifier and a datetime are taken as written.
pub open spec fn decode_text(p: PrimitiveType, s: Seq<char>) -> Result<ConjureView, ()> {
    match p {
        PrimitiveType::Binary => if base64_decoded(s) is Some {
            Ok(ConjureView::Text(s))
        } else {
            Err(())
        },
        PrimitiveType::Uuid => match uuid_normalized(s) {
            Some(u) => Ok(ConjureView::Text(u)),
            None => Err(()),
        },
        PrimitiveType::Bearertoken => if valid_token68(s) {
            Ok(ConjureView::Text(s))
        } else {
            Err(())
        },
        _ => Ok(ConjureView::Text(s)),
    }
}

/// Whether text names one of the doubles that JSON numbers cannot write: `NaN`, `Infinity` and
/// `-Infinity`.
pub open spec fn is_special_double(s: Seq<char>) -> bool {
    s == "NaN"@ || s == "Infinity"@ || s == "-Infinity"@
}

/// The largest magnitude of a `safelong`: `2^53 - 1`.
pub open spec fn safelong_max() -> int {
    9007199254740991
}

/// Reads a JSON value as a value of a primitive type.
pub open spec fn decode_primitive(p: PrimitiveType, v: JsonView) -> Result<ConjureView, ()> {
    if is_text(p) {
        match v {
            JsonView::Str(s) => decode_text(p, s),
            _ => Err(()),
        }
    } else {
        match p {
            PrimitiveType::Boolean => match v {
                JsonView::Bool(b) => Ok(ConjureView::Boolean(b)),
                _ => Err(()),
            },
            PrimitiveType::Integer => match v {
                JsonView::Number(Some(i), _) => if i32::MIN <= i <= i32::MAX {
                    Ok(ConjureView::Integer(i))
                } else {
                    Err(())
                },
                _ => Err(()),
            },
            PrimitiveType::Safelong => match v {
                JsonView::Number(Some(i), _) => if -safelong_max() <= i <= safelong_max() {
                    Ok(ConjureView::Integer(i))
                } else {
                    Err(())
                },
                _ => Err(()),
            },
            PrimitiveType::Double => match v {
                JsonView::Number(_, d) => Ok(ConjureView::Double(d)),
                JsonView::Str(s) => if is_special_double(s) {
                    Ok(ConjureView::Double(s))
                } else {
                    Err(())
                },
                _ => Err(()),
            },
            _ => match v {
                JsonView::Null => Err(()),
                _ => Ok(ConjureView::Any(v)),
            },
        }
    }
}

/// Reads a map key, written as text, as a value of type `t`: text types read it as their text,
/// booleans are `true` or `false`, integers and safelongs are signed decimal numbers in their
/// range, and an enum takes one of its values.
pub open spec fn decode_key(t: TypeView, s: Seq<char>) -> Result<ConjureView, ()> {
    match t {
        TypeView::Primitive(p) => if is_text(p) {
            decode_text(p, s)
        } else if p == PrimitiveType::Boolean && s == "true"@ {
            Ok(ConjureView::Boolean(true))
        } else if p == PrimitiveType::Boolean && s == "false"@ {
            Ok(ConjureView::Boolean(false))
        } else if p == PrimitiveType::Integer {
            match spec_parse_int(s) {
                Some(i) => if i32::MIN <= i <= i32::MAX {
                    Ok(ConjureView::Integer(i))
                } else {
                    Err(())
                },
                None => Err(()),
            }
        } else if p == PrimitiveType::Safelong {
            match spec_parse_int(s) {
                Some(i) => if -safelong_max() <= i <= safelong_max() {
                    Ok(ConjureView::Integer(i))
                } else {
                    Err(())
                },
                None => Err(()),
            }
        } else {
            Err(())
        },
        TypeView::Enum(values) => if values.contains(s) {
            Ok(ConjureView::Enum(s))
        } else {
            Err(())
        },
        _ => Err(()),
    }
}

/// The value a missing object field takes: empty for an optional or a collection; other fields
/// are required.
pub open spec fn default_value(t: TypeView) -> Result<ConjureView, ()> {
    match t {
        TypeView::Optional(_) => Ok(ConjureView::Optional(None)),
        TypeView::List(_) => Ok(ConjureView::List(Seq::empty())),
        TypeView::SetOf(_) => Ok(ConjureView::SetOf(Seq::empty())),
        TypeView::MapOf(_, _) => Ok(ConjureView::MapOf(Seq::empty())),
        _ => Err(()),
    }
}

/// The position of the first entry called `name`, if any.
pub open spec fn entry_index(entries: Seq<(Seq<char>, JsonView)>, name: Seq<char>) -> Option<int> {
    if exists|i: int| 0 <= i < entries.len() && entries[i].0 == name {
        Some(choose|i: int| 0 <= i < entries.len() && entries[i].0 == name && forall|j: int| 0 <= j < i ==> entries[j].0 != name)
    } else {
        None
    }
}

/// The position of the first field or variant called `name`, if any.
pub open spec fn field_index(fields: Seq<(Seq<char>, TypeView)>, name: Seq<char>) -> Option<int> {
    if exists|i: int| 0 <= i < fields.len() && fields[i].0 == name {
        Some(choose|i: int| 0 <= i < fields.len() && fields[i].0 == name && forall|j: int| 0 <= j < i ==> fields[j].0 != name)
    } else {
        None
    }
}

/// Every entry names a field, and no entry names one twice.
pub open spec fn entries_fit(fields: Seq<(Seq<char>, TypeView)>, entries: Seq<(Seq<char>, JsonView)>) -> bool {
    &&& forall|i: int| 0 <= i < entries.len() ==> field_index(fields, #[trigger] entries[i].0) is Some
    &&& forall|i: int, j: int| 0 <= i < j < entries.len() ==> #[trigger] entries[i].0 != #[trigger] entries[j].0
}

/// Two of the values are the same.
pub open spec fn has_duplicates(cs: Seq<ConjureView>) -> bool {
    exists|i: int, j: int| 0 <= i < j < cs.len() && #[trigger] same(cs[i], cs[j])
}

/// Two of the keys are the same.
pub open spec fn has_duplicate_keys(ps: Seq<(ConjureView, ConjureView)>) -> bool {
    exists|i: int, j: int| 0 <= i < j < ps.len() && #[trigger] same(ps[i].0, ps[j].0)
}

/// Reads a JSON value as a value of type `t`; fails where the value does not fit the type.
///
/// An optional takes `null` as empty and anything else as its item. A list or a set is an array
/// of its items, and a set holds no item twice. A map is an object whose keys are read as the key
/// type, none twice. An enum is a string among its values. An object is a JSON object whose
/// keys each name a field, none twice; a missing field is empty where it is optional or a
/// collection, and otherwise the value does not fit. A union is an object with two entries:
/// `type`, naming the variant, and the variant's value under its name; a variant the union does
/// not define takes any value but `null`.
pub open spec fn decode(t: TypeView, v: JsonView) -> Result<ConjureView, ()>
    decreases v, t,
{
    match t {
        TypeView::Primitive(p) => decode_primitive(p, v),
        TypeView::Optional(item) => match v {
            JsonView::Null => Ok(ConjureView::Optional(None)),
            _ => match decode(*item, v) {
                Ok(c) => Ok(ConjureView::Optional(Some(Box::new(c)))),
                Err(e) => Err(e),
            },
        },
        TypeView::List(item) => match v {
            JsonView::Array(xs) => match decode_items(*item, xs) {
                Ok(cs) => Ok(ConjureView::List(cs)),
                Err(e) => Err(e),
            },
            _ => Err(()),
        },
        TypeView::SetOf(item) => match v {
            JsonView::Array(xs) => match decode_items(*item, xs) {
                Ok(cs) => if has_duplicates(cs) {
                    Err(())
                } else {
                    Ok(ConjureView::SetOf(cs))
                },
                Err(e) => Err(e),
            },
            _ => Err(()),
        },
        TypeView::MapOf(key, value) => match v {
            JsonView::Object(es) => match decode_entries(*key, *value, es) {
                Ok(ps) => if has_duplicate_keys(ps) {
                    Err(())
                } else {
                    Ok(ConjureView::MapOf(ps))
                },
                Err(e) => Err(e),
            },
            _ => Err(()),
        },
        TypeView::Enum(values) => match v {
            JsonView::Str(s) => if values.contains(s) {
                Ok(ConjureView::Enum(s))
            } else {
                Err(())
            },
            _ => Err(()),
        },
        TypeView::Object(fields) => match v {
            JsonView::Object(es) => if entries_fit(fields, es) {
                match decode_fields(fields, es) {
                    Ok(cs) => Ok(ConjureView::Object(cs)),
                    Err(e) => Err(e),
                }
            } else {
                Err(())
            },
            _ => Err(()),
        },
        TypeView::Union(variants) => match v {
            JsonView::Object(es) => decode_union(variants, es),
            _ => Err(()),
        },
    }
}

/// Reads each of `xs` as a value of type `t`.
pub open spec fn decode_items(t: TypeView, xs: Seq<JsonView>) -> Result<Seq<ConjureView>, ()>
    decreases xs, t,
{
    if xs.len() == 0 {
        Ok(Seq::empty())
    } else {
        match decode_items(t, xs.drop_last()) {
            Ok(cs) => match decode(t, xs[xs.len() - 1]) {
                Ok(c) => Ok(cs.push(c)),
                Err(e) => Err(e),
            },
            Err(e) => Err(e),
        }
    }
}

/// Reads each entry of an object as a key of type `key` and a value of type `value`.
pub open spec fn decode_entries(key: TypeView, value: TypeView, es: Seq<(Seq<char>, JsonView)>) -> Result<Seq<(ConjureView, ConjureView)>, ()>
    decreases es, value,
{
    if es.len() == 0 {
        Ok(Seq::empty())
    } else {
        match decode_entries(key, value, es.drop_last()) {
            Ok(ps) => match decode_key(key, es[es.len() - 1].0) {
                Ok(k) => match decode(value, es[es.len() - 1].1) {
                    Ok(c) => Ok(ps.push((k, c))),
                    Err(e) => Err(e),
                },
                Err(e) => Err(e),
            },
            Err(e) => Err(e),
        }
    }
}

/// Reads the value of each of `fields` from the entries of an object, in the fields' order.
pub open spec fn decode_fields(fields: Seq<(Seq<char>, TypeView)>, es: Seq<(Seq<char>, JsonView)>) -> Result<Seq<ConjureView>, ()>
    decreases es, fields,
{
    if fields.len() == 0 {
        Ok(Seq::empty())
    } else {
        match decode_fields(fields.drop_last(), es) {
            Ok(cs) => {
                let f = fields[fields.len() - 1];
                let c = match entry_index(es, f.0) {
                    Some(k) => if 0 <= k < es.len() {
                        decode(f.1, es[k].1)
                    } else {
                        Err(())
                    },
                    None => default_value(f.1),
                };
                match c {
                    Ok(c) => Ok(cs.push(c)),
                    Err(e) => Err(e),
                }
            },
            Err(e) => Err(e),
        }
    }
}

/// Reads the entries of an object as a union of `variants`.
pub open spec fn decode_union(variants: Seq<(Seq<char>, TypeView)>, es: Seq<(Seq<char>, JsonView)>) -> Result<ConjureView, ()>
    decreases es, variants,
{
    if es.len() != 2 {
        Err(())
    } else {
        let t = if es[0].0 == "type"@ { 0int } else { 1int };
        let o = 1 - t;
        match es[t].1 {
            JsonView::Str(name) => if es[t].0 == "type"@ && es[o].0 == name && name != "type"@ {
                match field_index(variants, name) {
                    Some(k) => if 0 <= k < variants.len() {
                        match decode(variants[k].1, es[o].1) {
                            Ok(c) => Ok(ConjureView::Union(name, Box::new(c))),
                            Err(e) => Err(e),
                        }
                    } else {
                        Err(())
                    },
                    None => match es[o].1 {
                        JsonView::Null => Err(()),
                        _ => Ok(ConjureView::Union(name, Box::new(ConjureView::Any(es[o].1)))),
                    },
                }
            } else {
                Err(())
            },
            _ => Err(()),
        }
    }
}

/// Copies a JSON value.
pub fn copy_json(v: &JsonValue) -> (res: JsonValue)
    ensures
        res@ == v@,
    decreases v,
{
    match v {
        JsonValue::Null => JsonValue::Null,
        JsonValue::Bool(b) => JsonValue::Bool(*b),
        JsonValue::Number { integer, double } => JsonValue::Number { integer: *integer, double: double.clone() },
        JsonValue::String(s) => JsonValue::String(s.clone()),
        JsonValue::Array(items) => {
            let mut out: Vec<JsonValue> = Vec::new();
            let mut i: usize = 0;
            while i < items.len()
                invariant
                    i <= items@.len(),
                    *v == JsonValue::Array(*items),
                    array_view(out@) == array_view(items@).take(i as int),
                decreases items@.len() - i,
            {
                proof {
                    assert(decreases_to!(*v => (*v)->Array_0));
                    assert(decreases_to!((*v)->Array_0 => (*v)->Array_0@));
                    assert(decreases_to!((*v)->Array_0@ => (*v)->Array_0@[i as int]));
                }
                let c = copy_json(&items[i]);
                let ghost before = out@;
                out.push(c);
                assert(array_view(out@) =~= array_view(before).push(c@));
                assert(array_view(out@) =~= array_view(items@).take(i + 1));
                i = i + 1;
            }
            assert(array_view(items@).take(items@.len() as int) =~= array_view(items@));
            JsonValue::Array(out)
        },
        JsonValue::Object(entries) => {
            let mut out: Vec<(String, JsonValue)> = Vec::new();
            let mut i: usize = 0;
            while i < entries.len()
                invariant
                    i <= entries@.len(),
                    *v == JsonValue::Object(*entries),
                    object_view(out@) == object_view(entries@).take(i as int),
                decreases entries@.len() - i,
            {
                proof {
                    assert(decreases_to!(*v => (*v)->Object_0));
                    assert(decreases_to!((*v)->Object_0 => (*v)->Object_0@));
                    assert(decreases_to!((*v)->Object_0@ => (*v)->Object_0@[i as int]));
                    assert(decreases_to!((*v)->Object_0@[i as int] => (*v)->Object_0@[i as int].1));
                }
                let c = copy_json(&entries[i].1);
                let e = (entries[i].0.clone(), c);
                let ghost before = out@;
                out.push(e);
                assert(object_view(out@) =~= object_view(before).push((e.0@, c@)));
                assert(object_view(out@) =~= object_view(entries@).take(i + 1));
                i = i + 1;
            }
            assert(object_view(entries@).take(entries@.len() as int) =~= object_view(entries@));
            JsonValue::Object(out)
        },
    }
}

/// Whether two JSON values are equal.
pub fn json_equal(a: &JsonValue, b: &JsonValue) -> (res: bool)
    ensures
        res == (a@ == b@),
    decreases a,
{
    match a {
        JsonValue::Null => match b {
            JsonValue::Null => true,
            _ => false,
        },
        JsonValue::Bool(x) => match b {
            JsonValue::Bool(y) => *x == *y,
            _ => false,
        },
        JsonValue::Number { integer: i1, double: d1 } => match b {
            JsonValue::Number { integer: i2, double: d2 } => {
                let same_integer = match i1 {
                    Some(x) => match i2 {
                        Some(y) => *x == *y,
                        None => false,
                    },
                    None => i2.is_none(),
                };
                same_integer && str_eq(d1.as_str(), d2.as_str())
            },
            _ => false,
        },
        JsonValue::String(x) => match b {
            JsonValue::String(y) => str_eq(x.as_str(), y.as_str()),
            _ => false,
        },
        JsonValue::Array(xs) => match b {
            JsonValue::Array(ys) => {
                if xs.len() != ys.len() {
                    assert(array_view(xs@).len() != array_view(ys@).len());
                    return false;
                }
                let mut i: usize = 0;
                while i < xs.len()
                    invariant
                        i <= xs@.len(),
                        xs@.len() == ys@.len(),
                        *a == JsonValue::Array(*xs),
                        *b == JsonValue::Array(*ys),
                        forall|k: int| 0 <= k < i ==> array_view(xs@)[k] == array_view(ys@)[k],
                    decreases xs@.len() - i,
                {
                    proof {
                        assert(decreases_to!(*a => (*a)->Array_0));
                        assert(decreases_to!((*a)->Array_0 => (*a)->Array_0@));
                        assert(decreases_to!((*a)->Array_0@ => (*a)->Array_0@[i as int]));
                    }
                    if !json_equal(&xs[i], &ys[i]) {
                        assert(array_view(xs@)[i as int] != array_view(ys@)[i as int]);
                        return false;
                    }
                    i = i + 1;
                }
                assert(array_view(xs@) =~= array_view(ys@));
                true
            },
            _ => false,
        },
        JsonValue::Object(xs) => match b {
            JsonValue::Object(ys) => {
                if xs.len() != ys.len() {
                    assert(object_view(xs@).len() != object_view(ys@).len());
                    return false;
                }
                let mut i: usize = 0;
                while i < xs.len()
                    invariant
                        i <= xs@.len(),
                        xs@.len() == ys@.len(),
                        *a == JsonValue::Object(*xs),
                        *b == JsonValue::Object(*ys),
                        forall|k: int| 0 <= k < i ==> object_view(xs@)[k] == object_view(ys@)[k],
                    decreases xs@.len() - i,
                {
                    proof {
                        assert(decreases_to!(*a => (*a)->Object_0));
                        assert(decreases_to!((*a)->Object_0 => (*a)->Object_0@));
                        assert(decreases_to!((*a)->Object_0@ => (*a)->Object_0@[i as int]));
                        assert(decreases_to!((*a)->Object_0@[i as int] => (*a)->Object_0@[i as int].1));
                    }
                    if !str_eq(xs[i].0.as_str(), ys[i].0.as_str()) || !json_equal(&xs[i].1, &ys[i].1) {
                        assert(object_view(xs@)[i as int] != object_view(ys@)[i as int]);
                        return false;
                    }
                    i = i + 1;
                }
                assert(object_view(xs@) =~= object_view(ys@));
                true
            },
            _ => false,
        },
    }
}

/// Whether some item of `ys` is the same as `x`.
fn some_same(x: &ConjureValue, ys: &Vec<ConjureValue>) -> (res: bool)
    ensures
        res == has_same(x@, values_view(ys@)),
    decreases x, 1int,
{
    proof {
        lemma_has_same(x@, values_view(ys@));
    }
    let mut j: usize = 0;
    while j < ys.len()
        invariant
            j <= ys@.len(),
            forall|m: int| 0 <= m < j ==> !#[trigger] same(x@, values_view(ys@)[m]),
        decreases ys@.len() - j,
    {
        if same_values(x, &ys[j]) {
            assert(same(x@, values_view(ys@)[j as int]));
            proof {
                lemma_has_same(x@, values_view(ys@));
            }
            return true;
        }
        j = j + 1;
    }
    proof {
        lemma_has_same(x@, values_view(ys@));
    }
    false
}

/// Whether some item of `xs` is the same as `y`.
fn some_same_in(xs: &Vec<ConjureValue>, y: &ConjureValue) -> (res: bool)
    ensures
        res == has_same_in(values_view(xs@), y@),
    decreases xs, 1int,
{
    proof {
        lemma_has_same_in(values_view(xs@), y@);
    }
    let mut i: usize = 0;
    while i < xs.len()
        invariant
            i <= xs@.len(),
            forall|m: int| 0 <= m < i ==> !#[trigger] same(values_view(xs@)[m], y@),
        decreases xs@.len() - i,
    {
        proof {
            assert(decreases_to!(*xs => xs@));
            assert(decreases_to!(xs@ => xs@[i as int]));
        }
        if same_values(&xs[i], y) {
            assert(same(values_view(xs@)[i as int], y@));
            proof {
                lemma_has_same_in(values_view(xs@), y@);
            }
            return true;
        }
        i = i + 1;
    }
    proof {
        lemma_has_same_in(values_view(xs@), y@);
    }
    false
}

/// Whether some entry of `qs` has the same key and value as `p`.
fn some_same_pair(p: &(ConjureValue, ConjureValue), qs: &Vec<(ConjureValue, ConjureValue)>) -> (res: bool)
    ensures
        res == has_same_pair((p.0@, p.1@), pairs_view(qs@)),
    decreases p, 1int,
{
    proof {
        lemma_has_same_pair((p.0@, p.1@), pairs_view(qs@));
    }
    let mut j: usize = 0;
    while j < qs.len()
        invariant
            j <= qs@.len(),
            forall|m: int| 0 <= m < j ==> !(#[trigger] same(p.0@, pairs_view(qs@)[m].0) && same(p.1@, pairs_view(qs@)[m].1)),
        decreases qs@.len() - j,
    {
        proof {
            assert(decreases_to!(*p => p.0));
            assert(decreases_to!(*p => p.1));
        }
        if same_values(&p.0, &qs[j].0) && same_values(&p.1, &qs[j].1) {
            let ghost pp = (p.0@, p.1@);
            assert(same(pp.0, pairs_view(qs@)[j as int].0) && same(pp.1, pairs_view(qs@)[j as int].1));
            proof {
                lemma_has_same_pair((p.0@, p.1@), pairs_view(qs@));
            }
            return true;
        }
        j = j + 1;
    }
    proof {
        lemma_has_same_pair((p.0@, p.1@), pairs_view(qs@));
    }
    false
}

/// Whether some entry of `ps` has the same key and value as `q`.
fn some_same_pair_in(ps: &Vec<(ConjureValue, ConjureValue)>, q: &(ConjureValue, ConjureValue)) -> (res: bool)
    ensures
        res == has_same_pair_in(pairs_view(ps@), (q.0@, q.1@)),
    decreases ps, 1int,
{
    proof {
        lemma_has_same_pair_in(pairs_view(ps@), (q.0@, q.1@));
    }
    let mut i: usize = 0;
    while i < ps.len()
        invariant
            i <= ps@.len(),
            forall|m: int| 0 <= m < i ==> !(#[trigger] same(pairs_view(ps@)[m].0, q.0@) && same(pairs_view(ps@)[m].1, q.1@)),
        decreases ps@.len() - i,
    {
        proof {
            assert(decreases_to!(*ps => ps@));
            assert(decreases_to!(ps@ => ps@[i as int]));
            assert(decreases_to!(ps@[i as int] => ps@[i as int].0));
            assert(decreases_to!(ps@[i as int] => ps@[i as int].1));
        }
        if same_values(&ps[i].0, &q.0) && same_values(&ps[i].1, &q.1) {
            let ghost qq = (q.0@, q.1@);
            assert(same(pairs_view(ps@)[i as int].0, qq.0) && same(pairs_view(ps@)[i as int].1, qq.1));
            proof {
                lemma_has_same_pair_in(pairs_view(ps@), (q.0@, q.1@));
            }
            return true;
        }
        i = i + 1;
    }
    proof {
        lemma_has_same_pair_in(pairs_view(ps@), (q.0@, q.1@));
    }
    false
}

/// Whether each item of `xs` is the same as some item of `ys`.
fn all_have_same(xs: &Vec<ConjureValue>, ys: &Vec<ConjureValue>) -> (res: bool)
    ensures
        res == each_has_same(values_view(xs@), values_view(ys@)),
    decreases xs, 2int,
{
    proof {
        lemma_each_has_same(values_view(xs@), values_view(ys@));
    }
    let mut i: usize = 0;
    while i < xs.len()
        invariant
            i <= xs@.len(),
            forall|k: int| 0 <= k < i ==> #[trigger] has_same(values_view(xs@)[k], values_view(ys@)),
        decreases xs@.len() - i,
    {
        proof {
            assert(decreases_to!(*xs => xs@));
            assert(decreases_to!(xs@ => xs@[i as int]));
        }
        assert(values_view(xs@)[i as int] == xs@[i as int]@);
        if !some_same(&xs[i], ys) {
            proof {
                lemma_each_has_same(values_view(xs@), values_view(ys@));
            }
            return false;
        }
        i = i + 1;
    }
    proof {
        lemma_each_has_same(values_view(xs@), values_view(ys@));
    }
    true
}

/// Whether each item of `ys` is the same as some item of `xs`.
fn all_have_same_in(xs: &Vec<ConjureValue>, ys: &Vec<ConjureValue>) -> (res: bool)
    ensures
        res == each_has_same_in(values_view(xs@), values_view(ys@)),
    decreases xs, 2int,
{
    proof {
        lemma_each_has_same_in(values_view(xs@), values_view(ys@));
    }
    let mut j: usize = 0;
    while j < ys.len()
        invariant
            j <= ys@.len(),
            forall|m: int| 0 <= m < j ==> #[trigger] has_same_in(values_view(xs@), values_view(ys@)[m]),
        decreases ys@.len() - j,
    {
        assert(values_view(ys@)[j as int] == ys@[j as int]@);
        if !some_same_in(xs, &ys[j]) {
            proof {
                lemma_each_has_same_in(values_view(xs@), values_view(ys@));
            }
            return false;
        }
        j = j + 1;
    }
    proof {
        lemma_each_has_same_in(values_view(xs@), values_view(ys@));
    }
    true
}

/// Whether each entry of `ps` has the same key and value as some entry of `qs`.
fn all_pairs_have_same(ps: &Vec<(ConjureValue, ConjureValue)>, qs: &Vec<(ConjureValue, ConjureValue)>) -> (res: bool)
    ensures
        res == each_pair_has_same(pairs_view(ps@), pairs_view(qs@)),
    decreases ps, 2int,
{
    proof {
        lemma_each_pair_has_same(pairs_view(ps@), pairs_view(qs@));
    }
    let mut i: usize = 0;
    while i < ps.len()
        invariant
            i <= ps@.len(),
            forall|k: int| 0 <= k < i ==> #[trigger] has_same_pair(pairs_view(ps@)[k], pairs_view(qs@)),
        decreases ps@.len() - i,
    {
        proof {
            assert(decreases_to!(*ps => ps@));
            assert(decreases_to!(ps@ => ps@[i as int]));
        }
        assert(pairs_view(ps@)[i as int] == (ps@[i as int].0@, ps@[i as int].1@));
        if !some_same_pair(&ps[i], qs) {
            proof {
                lemma_each_pair_has_same(pairs_view(ps@), pairs_view(qs@));
            }
            return false;
        }
        i = i + 1;
    }
    proof {
        lemma_each_pair_has_same(pairs_view(ps@), pairs_view(qs@));
    }
    true
}

/// Whether each entry of `qs` has the same key and value as some entry of `ps`.
fn all_pairs_have_same_in(ps: &Vec<(ConjureValue, ConjureValue)>, qs: &Vec<(ConjureValue, ConjureValue)>) -> (res: bool)
    ensures
        res == each_pair_has_same_in(pairs_view(ps@), pairs_view(qs@)),
    decreases ps, 2int,
{
    proof {
        lemma_each_pair_has_same_in(pairs_view(ps@), pairs_view(qs@));
    }
    let mut j: usize = 0;
    while j < qs.len()
        invariant
            j <= qs@.len(),
            forall|m: int| 0 <= m < j ==> #[trigger] has_same_pair_in(pairs_view(ps@), pairs_view(qs@)[m]),
        decreases qs@.len() - j,
    {
        assert(pairs_view(qs@)[j as int] == (qs@[j as int].0@, qs@[j as int].1@));
        if !some_same_pair_in(ps, &qs[j]) {
            proof {
                lemma_each_pair_has_same_in(pairs_view(ps@), pairs_view(qs@));
            }
            return false;
        }
        j = j + 1;
    }
    proof {
        lemma_each_pair_has_same_in(pairs_view(ps@), pairs_view(qs@));
    }
    true
}

/// Whether two values are the same, as `same` says.
pub fn same_values(a: &ConjureValue, b: &ConjureValue) -> (res: bool)
    ensures
        res == same(a@, b@),
    decreases a, 0int,
{
    match a {
        ConjureValue::Integer(x) => match b {
            ConjureValue::Integer(y) => *x == *y,
            _ => false,
        },
        ConjureValue::Double(x) => match b {
            ConjureValue::Double(y) => str_eq(x.as_str(), y.as_str()),
            _ => false,
        },
        ConjureValue::Boolean(x) => match b {
            ConjureValue::Boolean(y) => *x == *y,
            _ => false,
        },
        ConjureValue::Text(x) => match b {
            ConjureValue::Text(y) => str_eq(x.as_str(), y.as_str()),
            _ => false,
        },
        ConjureValue::Enum(x) => match b {
            ConjureValue::Enum(y) => str_eq(x.as_str(), y.as_str()),
            _ => false,
        },
        ConjureValue::Any(x) => match b {
            ConjureValue::Any(y) => json_equal(x, y),
            _ => false,
        },
        ConjureValue::Optional(oa) => match b {
            ConjureValue::Optional(ob) => match oa {
                Some(x) => match ob {
                    Some(y) => {
                        proof {
                            assert(decreases_to!(*a => (*a)->Optional_0));
                            assert(decreases_to!((*a)->Optional_0 => (*a)->Optional_0->0));
                        }
                        same_values(x, y)
                    },
                    None => false,
                },
                None => ob.is_none(),
            },
            _ => false,
        },
        ConjureValue::Union(va, x) => match b {
            ConjureValue::Union(vb, y) => {
                proof {
                    assert(decreases_to!(*a => (*a)->Union_1));
                }
                str_eq(va.as_str(), vb.as_str()) && same_values(x, y)
            },
            _ => false,
        },
        ConjureValue::List(xs) => match b {
            ConjureValue::List(ys) => {
                proof {
                    assert(decreases_to!(*a => (*a)->List_0));
                }
                same_in_order(xs, ys)
            },
            _ => false,
        },
        ConjureValue::Object(xs) => match b {
            ConjureValue::Object(ys) => {
                proof {
                    assert(decreases_to!(*a => (*a)->Object_0));
                }
                same_in_order(xs, ys)
            },
            _ => false,
        },
        ConjureValue::SetOf(xs) => match b {
            ConjureValue::SetOf(ys) => {
                proof {
                    assert(decreases_to!(*a => (*a)->SetOf_0));
                }
                all_have_same(xs, ys) && all_have_same_in(xs, ys)
            },
            _ => false,
        },
        ConjureValue::MapOf(ps) => match b {
            ConjureValue::MapOf(qs) => {
                proof {
                    assert(decreases_to!(*a => (*a)->MapOf_0));
                }
                all_pairs_have_same(ps, qs) && all_pairs_have_same_in(ps, qs)
            },
            _ => false,
        },
    }
}

/// Whether two lists of values are the same item by item.
fn same_in_order(xs: &Vec<ConjureValue>, ys: &Vec<ConjureValue>) -> (res: bool)
    ensures
        res == same_each(values_view(xs@), values_view(ys@)),
    decreases xs, 1int,
{
    proof {
        lemma_same_each(values_view(xs@), values_view(ys@));
    }
    if xs.len() != ys.len() {
        proof {
            lemma_same_each(values_view(xs@), values_view(ys@));
        }
        return false;
    }
    let mut i: usize = 0;
    while i < xs.len()
        invariant
            i <= xs@.len(),
            xs@.len() == ys@.len(),
            forall|k: int| 0 <= k < i ==> #[trigger] same(values_view(xs@)[k], values_view(ys@)[k]),
        decreases xs@.len() - i,
    {
        proof {
            assert(decreases_to!(*xs => xs@));
            assert(decreases_to!(xs@ => xs@[i as int]));
        }
        if !same_values(&xs[i], &ys[i]) {
            assert(!same(values_view(xs@)[i as int], values_view(ys@)[i as int]));
            proof {
                lemma_same_each(values_view(xs@), values_view(ys@));
            }
            return false;
        }
        i = i + 1;
    }
    proof {
        lemma_same_each(values_view(xs@), values_view(ys@));
    }
    true
}

/// Whether a primitive type is written as a string.
fn is_text_type(p: PrimitiveType) -> (res: bool)
    ensures
        res == is_text(p),
{
    match p {
        PrimitiveType::String | PrimitiveType::Binary | PrimitiveType::Uuid | PrimitiveType::Rid
        | PrimitiveType::Bearertoken | PrimitiveType::Datetime => true,
        _ => false,
    }
}

/// Reads text as a value of a primitive type written as text.
fn decode_text_value(p: PrimitiveType, s: &String) -> (res: Result<ConjureValue, ()>)
    ensures
        match res {
            Ok(c) => decode_text(p, s@) == Ok::<ConjureView, ()>(c@),
            Err(_) => decode_text(p, s@) is Err,
        },
{
    match p {
        PrimitiveType::Binary => {
            if decode_base64(s.as_str()).is_some() {
                Ok(ConjureValue::Text(s.clone()))
            } else {
                Err(())
            }
        },
        PrimitiveType::Uuid => match parse_uuid(s.as_str()) {
            Some(u) => Ok(ConjureValue::Text(u)),
            None => Err(()),
        },
        PrimitiveType::Bearertoken => {
            if is_valid_token68(s.as_str()) {
                Ok(ConjureValue::Text(s.clone()))
            } else {
                Err(())
            }
        },
        _ => Ok(ConjureValue::Text(s.clone())),
    }
}

/// Reads a JSON value as a value of a primitive type.
fn decode_primitive_value(p: PrimitiveType, v: &JsonValue) -> (res: Result<ConjureValue, ()>)
    ensures
        match res {
            Ok(c) => decode_primitive(p, v@) == Ok::<ConjureView, ()>(c@),
            Err(_) => decode_primitive(p, v@) is Err,
        },
{
    proof {
        reveal_strlit("NaN");
        reveal_strlit("Infinity");
        reveal_strlit("-Infinity");
    }
    if is_text_type(p) {
        return match v {
            JsonValue::String(s) => decode_text_value(p, s),
            _ => Err(()),
        };
    }
    match p {
        PrimitiveType::Boolean => match v {
            JsonValue::Bool(b) => Ok(ConjureValue::Boolean(*b)),
            _ => Err(()),
        },
        PrimitiveType::Integer => match v {
            JsonValue::Number { integer: Some(i), .. } => {
                if -2147483648 <= *i && *i <= 2147483647 {
                    Ok(ConjureValue::Integer(*i))
                } else {
                    Err(())
                }
            },
            _ => Err(()),
        },
        PrimitiveType::Safelong => match v {
            JsonValue::Number { integer: Some(i), .. } => {
                if -9007199254740991 <= *i && *i <= 9007199254740991 {
                    Ok(ConjureValue::Integer(*i))
                } else {
                    Err(())
                }
            },
            _ => Err(()),
        },
        PrimitiveType::Double => match v {
            JsonValue::Number { double, .. } => Ok(ConjureValue::Double(double.clone())),
            JsonValue::String(s) => {
                if str_eq(s.as_str(), "NaN") || str_eq(s.as_str(), "Infinity") || str_eq(
                    s.as_str(),
                    "-Infinity",
                ) {
                    Ok(ConjureValue::Double(s.clone()))
                } else {
                    Err(())
                }
            },
            _ => Err(()),
        },
        _ => match v {
            JsonValue::Null => Err(()),
            _ => Ok(ConjureValue::Any(copy_json(v))),
        },
    }
}

/// Whether `s` is one of `values`.
fn contains_text(values: &Vec<String>, s: &str) -> (res: bool)
    ensures
        res == views(values@).contains(s@),
{
    let mut i: usize = 0;
    while i < values.len()
        invariant
            i <= values@.len(),
            forall|k: int| 0 <= k < i ==> views(values@)[k] != s@,
        decreases values@.len() - i,
    {
        if str_eq(values[i].as_str(), s) {
            assert(views(values@)[i as int] == s@);
            return true;
        }
        i = i + 1;
    }
    false
}

/// Reads a map key as a value of type `t`.
fn decode_map_key(t: &ResolvedType, s: &String) -> (res: Result<ConjureValue, ()>)
    ensures
        match res {
            Ok(c) => decode_key(t@, s@) == Ok::<ConjureView, ()>(c@),
            Err(_) => decode_key(t@, s@) is Err,
        },
{
    proof {
        reveal_strlit("true");
        reveal_strlit("false");
    }
    match t {
        ResolvedType::Primitive(p) => {
            if is_text_type(*p) {
                decode_text_value(*p, s)
            } else if *p == PrimitiveType::Boolean && str_eq(s.as_str(), "true") {
                Ok(ConjureValue::Boolean(true))
            } else if *p == PrimitiveType::Boolean && str_eq(s.as_str(), "false") {
                Ok(ConjureValue::Boolean(false))
            } else if *p == PrimitiveType::Integer {
                match parse_i64(s.as_str()) {
                    Some(i) => if -2147483648 <= i && i <= 2147483647 {
                        Ok(ConjureValue::Integer(i))
                    } else {
                        Err(())
                    },
                    None => Err(()),
                }
            } else if *p == PrimitiveType::Safelong {
                match parse_i64(s.as_str()) {
                    Some(i) => if -9007199254740991 <= i && i <= 9007199254740991 {
                        Ok(ConjureValue::Integer(i))
                    } else {
                        Err(())
                    },
                    None => Err(()),
                }
            } else {
                Err(())
            }
        },
        ResolvedType::Enum(values) => {
            if contains_text(values, s.as_str()) {
                Ok(ConjureValue::Enum(s.clone()))
            } else {
                Err(())
            }
        },
        _ => Err(()),
    }
}

/// The value a missing object field of type `t` takes.
fn default_field_value(t: &ResolvedType) -> (res: Result<ConjureValue, ()>)
    ensures
        match res {
            Ok(c) => default_value(t@) == Ok::<ConjureView, ()>(c@),
            Err(_) => default_value(t@) is Err,
        },
{
    match t {
        ResolvedType::Optional(_) => Ok(ConjureValue::Optional(None)),
        ResolvedType::List(_) => {
            let c = ConjureValue::List(Vec::new());
            assert(values_view(Seq::<ConjureValue>::empty()) =~= Seq::<ConjureView>::empty());
            Ok(c)
        },
        ResolvedType::SetOf(_) => {
            let c = ConjureValue::SetOf(Vec::new());
            assert(values_view(Seq::<ConjureValue>::empty()) =~= Seq::<ConjureView>::empty());
            Ok(c)
        },
        ResolvedType::MapOf(_, _) => {
            let c = ConjureValue::MapOf(Vec::new());
            assert(pairs_view(Seq::<(ConjureValue, ConjureValue)>::empty()) =~= Seq::<(ConjureView, ConjureView)>::empty());
            Ok(c)
        },
        _ => Err(()),
    }
}

/// The position of the first field called `name`.
fn find_field(fields: &Vec<FieldDefinition>, name: &str) -> (res: Option<usize>)
    ensures
        match res {
            Some(k) => field_index(fields_view(fields@), name@) == Some(k as int) && k < fields@.len(),
            None => field_index(fields_view(fields@), name@) is None,
        },
{
    let ghost fv = fields_view(fields@);
    let mut i: usize = 0;
    while i < fields.len()
        invariant
            i <= fields@.len(),
            fv == fields_view(fields@),
            fv.len() == fields@.len(),
            forall|j: int| 0 <= j < i ==> fv[j].0 != name@,
        decreases fields@.len() - i,
    {
        assert(fv[i as int].0 == fields@[i as int].field_name@);
        if str_eq(fields[i].field_name.as_str(), name) {
            let ghost k = choose|k: int| 0 <= k < fv.len() && fv[k].0 == name@ && forall|j: int| 0 <= j < k ==> fv[j].0 != name@;
            assert(k == i) by {
                if k < i {
                    assert(fv[k].0 != name@);
                } else if k > i {
                    assert(fv[i as int].0 != name@);
                }
            }
            return Some(i);
        }
        i = i + 1;
    }
    None
}

/// The position of the first entry called `name`.
fn find_entry(es: &Vec<(String, JsonValue)>, name: &str) -> (res: Option<usize>)
    ensures
        match res {
            Some(k) => entry_index(object_view(es@), name@) == Some(k as int) && k < es@.len(),
            None => entry_index(object_view(es@), name@) is None,
        },
{
    let ghost ov = object_view(es@);
    let mut i: usize = 0;
    while i < es.len()
        invariant
            i <= es@.len(),
            ov == object_view(es@),
            ov.len() == es@.len(),
            forall|j: int| 0 <= j < i ==> ov[j].0 != name@,
        decreases es@.len() - i,
    {
        assert(ov[i as int].0 == es@[i as int].0@);
        if str_eq(es[i].0.as_str(), name) {
            let ghost k = choose|k: int| 0 <= k < ov.len() && ov[k].0 == name@ && forall|j: int| 0 <= j < k ==> ov[j].0 != name@;
            assert(k == i) by {
                if k < i {
                    assert(ov[k].0 != name@);
                } else if k > i {
                    assert(ov[i as int].0 != name@);
                }
            }
            return Some(i);
        }
        i = i + 1;
    }
    None
}

/// Whether no entry before position `i` has the name of entry `i`.
fn name_not_before(es: &Vec<(String, JsonValue)>, i: usize) -> (res: bool)
    requires
        i < es@.len(),
    ensures
        res == forall|k: int| 0 <= k < i ==> #[trigger] object_view(es@)[k].0 != object_view(es@)[i as int].0,
{
    let ghost ov = object_view(es@);
    let mut j: usize = 0;
    while j < i
        invariant
            j <= i < es@.len(),
            ov == object_view(es@),
            ov.len() == es@.len(),
            forall|k: int| 0 <= k < j ==> #[trigger] ov[k].0 != ov[i as int].0,
        decreases i - j,
    {
        assert(ov[j as int].0 == es@[j as int].0@);
        assert(ov[i as int].0 == es@[i as int].0@);
        if str_eq(es[j].0.as_str(), es[i].0.as_str()) {
            return false;
        }
        j = j + 1;
    }
    true
}

/// Whether every entry names a field and no entry names one twice.
#[verifier::rlimit(40)]
fn entries_fit_fields(fields: &Vec<FieldDefinition>, es: &Vec<(String, JsonValue)>) -> (res: bool)
    ensures
        res == entries_fit(fields_view(fields@), object_view(es@)),
{
    let ghost ov = object_view(es@);
    let ghost fv = fields_view(fields@);
    let mut i: usize = 0;
    while i < es.len()
        invariant
            i <= es@.len(),
            ov == object_view(es@),
            fv == fields_view(fields@),
            ov.len() == es@.len(),
            forall|k: int| 0 <= k < i ==> field_index(fv, #[trigger] ov[k].0) is Some,
            forall|k: int, m: int| 0 <= k < m < i ==> #[trigger] ov[k].0 != #[trigger] ov[m].0,
        decreases es@.len() - i,
    {
        assert(ov[i as int].0 == es@[i as int].0@);
        if find_field(fields, es[i].0.as_str()).is_none() {
            return false;
        }
        if !name_not_before(es, i) {
            return false;
        }
        i = i + 1;
    }
    true
}

/// Whether two of the values are the same.
fn has_duplicate_values(cs: &Vec<ConjureValue>) -> (res: bool)
    ensures
        res == has_duplicates(values_view(cs@)),
{
    let ghost cv = values_view(cs@);
    let mut i: usize = 0;
    while i < cs.len()
        invariant
            i <= cs@.len(),
            cv == values_view(cs@),
            cv.len() == cs@.len(),
            forall|k: int, m: int| 0 <= k < m < i ==> !#[trigger] same(cv[k], cv[m]),
        decreases cs@.len() - i,
    {
        let mut j: usize = 0;
        while j < i
            invariant
                j <= i < cs@.len(),
                cv == values_view(cs@),
                cv.len() == cs@.len(),
                forall|k: int| 0 <= k < j ==> !#[trigger] same(cv[k], cv[i as int]),
            decreases i - j,
        {
            assert(cv[j as int] == cs@[j as int]@);
            assert(cv[i as int] == cs@[i as int]@);
            if same_values(&cs[j], &cs[i]) {
                assert(same(cv[j as int], cv[i as int]));
                return true;
            }
            j = j + 1;
        }
        i = i + 1;
    }
    false
}

/// Whether two of the keys are the same.
fn has_duplicate_map_keys(ps: &Vec<(ConjureValue, ConjureValue)>) -> (res: bool)
    ensures
        res == has_duplicate_keys(pairs_view(ps@)),
{
    let ghost pv = pairs_view(ps@);
    let mut i: usize = 0;
    while i < ps.len()
        invariant
            i <= ps@.len(),
            pv == pairs_view(ps@),
            pv.len() == ps@.len(),
            forall|k: int, m: int| 0 <= k < m < i ==> !#[trigger] same(pv[k].0, pv[m].0),
        decreases ps@.len() - i,
    {
        let mut j: usize = 0;
        while j < i
            invariant
                j <= i < ps@.len(),
                pv == pairs_view(ps@),
                pv.len() == ps@.len(),
                forall|k: int| 0 <= k < j ==> !#[trigger] same(pv[k].0, pv[i as int].0),
            decreases i - j,
        {
            assert(pv[j as int].0 == ps@[j as int].0@);
            assert(pv[i as int].0 == ps@[i as int].0@);
            if same_values(&ps[j].0, &ps[i].0) {
                assert(same(pv[j as int].0, pv[i as int].0));
                return true;
            }
            j = j + 1;
        }
        i = i + 1;
    }
    false
}

proof fn lemma_items_fail(t: TypeView, xs: Seq<JsonView>, k: int)
    requires
        0 <= k <= xs.len(),
        decode_items(t, xs.take(k)) is Err,
    ensures
        decode_items(t, xs) is Err,
    decreases xs.len() - k,
{
    if k < xs.len() {
        assert(xs.take(k + 1).drop_last() =~= xs.take(k));
        lemma_items_fail(t, xs, k + 1);
    } else {
        assert(xs.take(k) =~= xs);
    }
}

proof fn lemma_entries_fail(key: TypeView, value: TypeView, es: Seq<(Seq<char>, JsonView)>, k: int)
    requires
        0 <= k <= es.len(),
        decode_entries(key, value, es.take(k)) is Err,
    ensures
        decode_entries(key, value, es) is Err,
    decreases es.len() - k,
{
    if k < es.len() {
        assert(es.take(k + 1).drop_last() =~= es.take(k));
        lemma_entries_fail(key, value, es, k + 1);
    } else {
        assert(es.take(k) =~= es);
    }
}

proof fn lemma_fields_fail(fields: Seq<(Seq<char>, TypeView)>, es: Seq<(Seq<char>, JsonView)>, k: int)
    requires
        0 <= k <= fields.len(),
        decode_fields(fields.take(k), es) is Err,
    ensures
        decode_fields(fields, es) is Err,
    decreases fields.len() - k,
{
    if k < fields.len() {
        assert(fields.take(k + 1).drop_last() =~= fields.take(k));
        lemma_fields_fail(fields, es, k + 1);
    } else {
        assert(fields.take(k) =~= fields);
    }
}

/// Reads a JSON value as a value of type `t`, as `decode` says.
#[verifier::rlimit(50)]
pub fn decode_value(t: &ResolvedType, v: &JsonValue) -> (res: Result<ConjureValue, ()>)
    ensures
        match res {
            Ok(c) => decode(t@, v@) == Ok::<ConjureView, ()>(c@),
            Err(_) => decode(t@, v@) is Err,
        },
    decreases v, t,
{
    match t {
        ResolvedType::Primitive(p) => decode_primitive_value(*p, v),
        ResolvedType::Optional(item) => match v {
            JsonValue::Null => Ok(ConjureValue::Optional(None)),
            _ => {
                proof {
                    assert(decreases_to!(*t => (*t)->Optional_0));
                }
                match decode_value(item, v) {
                    Ok(c) => Ok(ConjureValue::Optional(Some(Box::new(c)))),
                    Err(e) => Err(e),
                }
            },
        },
        ResolvedType::List(item) => match v {
            JsonValue::Array(xs) => match decode_array(item, xs, v) {
                Ok(cs) => {
                    let c = ConjureValue::List(cs);
                    Ok(c)
                },
                Err(e) => Err(e),
            },
            _ => Err(()),
        },
        ResolvedType::SetOf(item) => match v {
            JsonValue::Array(xs) => match decode_array(item, xs, v) {
                Ok(cs) => {
                    if has_duplicate_values(&cs) {
                        Err(())
                    } else {
                        Ok(ConjureValue::SetOf(cs))
                    }
                },
                Err(e) => Err(e),
            },
            _ => Err(()),
        },
        ResolvedType::MapOf(key, value) => match v {
            JsonValue::Object(es) => match decode_map_entries(key, value, es, v) {
                Ok(ps) => {
                    if has_duplicate_map_keys(&ps) {
                        Err(())
                    } else {
                        Ok(ConjureValue::MapOf(ps))
                    }
                },
                Err(e) => Err(e),
            },
            _ => Err(()),
        },
        ResolvedType::Enum(values) => match v {
            JsonValue::String(s) => {
                if contains_text(values, s.as_str()) {
                    Ok(ConjureValue::Enum(s.clone()))
                } else {
                    Err(())
                }
            },
            _ => Err(()),
        },
        ResolvedType::Object(fields) => match v {
            JsonValue::Object(es) => {
                if !entries_fit_fields(fields, es) {
                    return Err(());
                }
                match decode_object_fields(fields, es, v) {
                    Ok(cs) => Ok(ConjureValue::Object(cs)),
                    Err(e) => Err(e),
                }
            },
            _ => Err(()),
        },
        ResolvedType::Union(variants) => match v {
            JsonValue::Object(es) => decode_union_entries(variants, es, v),
            _ => Err(()),
        },
    }
}

/// Reads each item of an array, the value `v`, as a value of type `t`.
fn decode_array(t: &ResolvedType, xs: &Vec<JsonValue>, v: &JsonValue) -> (res: Result<Vec<ConjureValue>, ()>)
    requires
        *v == JsonValue::Array(*xs),
    ensures
        match res {
            Ok(cs) => decode_items(t@, array_view(xs@)) == Ok::<Seq<ConjureView>, ()>(values_view(cs@)),
            Err(_) => decode_items(t@, array_view(xs@)) is Err,
        },
    decreases v, t,
{
    let ghost av = array_view(xs@);
    let mut cs: Vec<ConjureValue> = Vec::new();
    let mut i: usize = 0;
    assert(av.take(0) =~= Seq::<JsonView>::empty());
    assert(values_view(cs@) =~= Seq::<ConjureView>::empty());
    while i < xs.len()
        invariant
            i <= xs@.len(),
            *v == JsonValue::Array(*xs),
            av == array_view(xs@),
            av.len() == xs@.len(),
            decode_items(t@, av.take(i as int)) == Ok::<Seq<ConjureView>, ()>(values_view(cs@)),
        decreases xs@.len() - i,
    {
        proof {
            assert(decreases_to!(*v => (*v)->Array_0));
            assert(decreases_to!((*v)->Array_0 => (*v)->Array_0@));
            assert(decreases_to!((*v)->Array_0@ => (*v)->Array_0@[i as int]));
        }
        assert(av.take(i + 1).drop_last() =~= av.take(i as int));
        assert(av.take(i + 1)[i as int] == xs@[i as int]@);
        match decode_value(t, &xs[i]) {
            Ok(c) => {
                let ghost before = cs@;
                cs.push(c);
                assert(values_view(cs@) =~= values_view(before).push(c@));
            },
            Err(_) => {
                proof {
                    lemma_items_fail(t@, av, i + 1);
                }
                return Err(());
            },
        }
        i = i + 1;
    }
    assert(av.take(xs@.len() as int) =~= av);
    Ok(cs)
}

/// Reads each entry of an object, the value `v`, as a key of type `key` and a value of type
/// `value`.
fn decode_map_entries(key: &ResolvedType, value: &ResolvedType, es: &Vec<(String, JsonValue)>, v: &JsonValue) -> (res: Result<Vec<(ConjureValue, ConjureValue)>, ()>)
    requires
        *v == JsonValue::Object(*es),
    ensures
        match res {
            Ok(ps) => decode_entries(key@, value@, object_view(es@)) == Ok::<Seq<(ConjureView, ConjureView)>, ()>(pairs_view(ps@)),
            Err(_) => decode_entries(key@, value@, object_view(es@)) is Err,
        },
    decreases v, value,
{
    let ghost ov = object_view(es@);
    let mut ps: Vec<(ConjureValue, ConjureValue)> = Vec::new();
    let mut i: usize = 0;
    assert(ov.take(0) =~= Seq::<(Seq<char>, JsonView)>::empty());
    assert(pairs_view(ps@) =~= Seq::<(ConjureView, ConjureView)>::empty());
    while i < es.len()
        invariant
            i <= es@.len(),
            *v == JsonValue::Object(*es),
            ov == object_view(es@),
            ov.len() == es@.len(),
            decode_entries(key@, value@, ov.take(i as int)) == Ok::<Seq<(ConjureView, ConjureView)>, ()>(pairs_view(ps@)),
        decreases es@.len() - i,
    {
        proof {
            assert(decreases_to!(*v => (*v)->Object_0));
            assert(decreases_to!((*v)->Object_0 => (*v)->Object_0@));
            assert(decreases_to!((*v)->Object_0@ => (*v)->Object_0@[i as int]));
            assert(decreases_to!((*v)->Object_0@[i as int] => (*v)->Object_0@[i as int].1));
        }
        assert(ov.take(i + 1).drop_last() =~= ov.take(i as int));
        assert(ov.take(i + 1)[i as int] == (es@[i as int].0@, es@[i as int].1@));
        let k = match decode_map_key(key, &es[i].0) {
            Ok(k) => k,
            Err(_) => {
                proof {
                    lemma_entries_fail(key@, value@, ov, i + 1);
                }
                return Err(());
            },
        };
        match decode_value(value, &es[i].1) {
            Ok(c) => {
                let ghost before = ps@;
                ps.push((k, c));
                assert(pairs_view(ps@) =~= pairs_view(before).push((k@, c@)));
            },
            Err(_) => {
                proof {
                    lemma_entries_fail(key@, value@, ov, i + 1);
                }
                return Err(());
            },
        }
        i = i + 1;
    }
    assert(ov.take(es@.len() as int) =~= ov);
    Ok(ps)
}

/// Reads the value of each of `fields` from the entries of an object, the value `v`.
fn decode_object_fields(fields: &Vec<FieldDefinition>, es: &Vec<(String, JsonValue)>, v: &JsonValue) -> (res: Result<Vec<ConjureValue>, ()>)
    requires
        *v == JsonValue::Object(*es),
    ensures
        match res {
            Ok(cs) => decode_fields(fields_view(fields@), object_view(es@)) == Ok::<Seq<ConjureView>, ()>(values_view(cs@)),
            Err(_) => decode_fields(fields_view(fields@), object_view(es@)) is Err,
        },
    decreases v, fields,
{
    let ghost ov = object_view(es@);
    let ghost fv = fields_view(fields@);
    let mut cs: Vec<ConjureValue> = Vec::new();
    let mut i: usize = 0;
    assert(fv.take(0) =~= Seq::<(Seq<char>, TypeView)>::empty());
    assert(values_view(cs@) =~= Seq::<ConjureView>::empty());
    while i < fields.len()
        invariant
            i <= fields@.len(),
            *v == JsonValue::Object(*es),
            ov == object_view(es@),
            fv == fields_view(fields@),
            ov.len() == es@.len(),
            fv.len() == fields@.len(),
            decode_fields(fv.take(i as int), ov) == Ok::<Seq<ConjureView>, ()>(values_view(cs@)),
        decreases fields@.len() - i,
    {
        assert(fv.take(i + 1).drop_last() =~= fv.take(i as int));
        assert(fv.take(i + 1)[i as int] == (fields@[i as int].field_name@, fields@[i as int].type_@));
        let c = match find_entry(es, fields[i].field_name.as_str()) {
            Some(k) => {
                proof {
                    assert(decreases_to!(*v => (*v)->Object_0));
                    assert(decreases_to!((*v)->Object_0 => (*v)->Object_0@));
                    assert(decreases_to!((*v)->Object_0@ => (*v)->Object_0@[k as int]));
                    assert(decreases_to!((*v)->Object_0@[k as int] => (*v)->Object_0@[k as int].1));
                }
                assert(ov[k as int].1 == es@[k as int].1@);
                decode_value(&fields[i].type_, &es[k].1)
            },
            None => default_field_value(&fields[i].type_),
        };
        match c {
            Ok(c) => {
                let ghost before = cs@;
                cs.push(c);
                assert(values_view(cs@) =~= values_view(before).push(c@));
            },
            Err(_) => {
                proof {
                    lemma_fields_fail(fv, ov, i + 1);
                }
                return Err(());
            },
        }
        i = i + 1;
    }
    assert(fv.take(fields@.len() as int) =~= fv);
    Ok(cs)
}

/// Reads the entries of an object, the value `v`, as a union of `variants`.
#[verifier::rlimit(40)]
fn decode_union_entries(variants: &Vec<FieldDefinition>, es: &Vec<(String, JsonValue)>, v: &JsonValue) -> (res: Result<ConjureValue, ()>)
    requires
        *v == JsonValue::Object(*es),
    ensures
        match res {
            Ok(c) => decode_union(fields_view(variants@), object_view(es@)) == Ok::<ConjureView, ()>(c@),
            Err(_) => decode_union(fields_view(variants@), object_view(es@)) is Err,
        },
    decreases v, variants,
{
    let ghost ov = object_view(es@);
    proof {
        reveal_strlit("type");
    }
    if es.len() != 2 {
        return Err(());
    }
    assert(ov[0].0 == es@[0].0@ && ov[1].0 == es@[1].0@);
    assert(ov[0].1 == es@[0].1@ && ov[1].1 == es@[1].1@);
    let t: usize = if str_eq(es[0].0.as_str(), "type") {
        0
    } else {
        1
    };
    let o: usize = 1 - t;
    match &es[t].1 {
        JsonValue::String(name) => {
            if !str_eq(es[t].0.as_str(), "type") || !str_eq(es[o].0.as_str(), name.as_str()) || str_eq(name.as_str(), "type") {
                return Err(());
            }
            proof {
                assert(decreases_to!(*v => (*v)->Object_0));
                assert(decreases_to!((*v)->Object_0 => (*v)->Object_0@));
                assert(decreases_to!((*v)->Object_0@ => (*v)->Object_0@[o as int]));
                assert(decreases_to!((*v)->Object_0@[o as int] => (*v)->Object_0@[o as int].1));
            }
            assert(t as int == (if ov[0].0 == "type"@ { 0int } else { 1int }));
            assert(o as int == 1 - t as int);
            assert(ov[t as int].1 == JsonView::Str(name@));
            assert(ov[t as int].0 == "type"@ && ov[o as int].0 == name@ && name@ != "type"@);
            assert(ov[o as int].1 == es@[o as int].1@);
            match find_field(variants, name.as_str()) {
                Some(k) => {
                    assert(fields_view(variants@)[k as int].1 == variants@[k as int].type_@);
                    match decode_value(&variants[k].type_, &es[o].1) {
                        Ok(c) => Ok(ConjureValue::Union(name.clone(), Box::new(c))),
                        Err(e) => Err(e),
                    }
                },
                None => match &es[o].1 {
                    JsonValue::Null => Err(()),
                    _ => {
                        let inner = ConjureValue::Any(copy_json(&es[o].1));
                        assert(inner@ == ConjureView::Any(ov[o as int].1));
                        let r = ConjureValue::Union(name.clone(), Box::new(inner));
                        assert(r@ == ConjureView::Union(name@, Box::new(ConjureView::Any(ov[o as int].1))));
                        assert(ov[o as int].1 != JsonView::Null);
                        Ok(r)
                    },
                },
            }
        },
        _ => Err(()),
    }
}

/// Reading a JSON value as a primitive keeps what the value says: a boolean stays the same
/// boolean, a string the same text, a number its text as a double, and an integer its value where
/// it is in the type's range; a JSON value of another kind does not read as the primitive.
pub proof fn lemma_decode_primitives_keep_values(b: bool, s: Seq<char>, n: Option<int>, d: Seq<char>, i: int)
    ensures
        decode(TypeView::Primitive(PrimitiveType::Boolean), JsonView::Bool(b)) == Ok::<ConjureView, ()>(
            ConjureView::Boolean(b),
        ),
        decode(TypeView::Primitive(PrimitiveType::String), JsonView::Str(s)) == Ok::<ConjureView, ()>(
            ConjureView::Text(s),
        ),
        decode(TypeView::Primitive(PrimitiveType::Double), JsonView::Number(n, d)) == Ok::<ConjureView, ()>(
            ConjureView::Double(d),
        ),
        -2147483648 <= i <= 2147483647 ==> decode(
            TypeView::Primitive(PrimitiveType::Integer),
            JsonView::Number(Some(i), d),
        ) == Ok::<ConjureView, ()>(ConjureView::Integer(i)),
        !(-2147483648 <= i <= 2147483647) ==> decode(
            TypeView::Primitive(PrimitiveType::Integer),
            JsonView::Number(Some(i), d),
        ) is Err,
        -9007199254740991 <= i <= 9007199254740991 ==> decode(
            TypeView::Primitive(PrimitiveType::Safelong),
            JsonView::Number(Some(i), d),
        ) == Ok::<ConjureView, ()>(ConjureView::Integer(i)),
        !(-9007199254740991 <= i <= 9007199254740991) ==> decode(
            TypeView::Primitive(PrimitiveType::Safelong),
            JsonView::Number(Some(i), d),
        ) is Err,
        decode(TypeView::Primitive(PrimitiveType::Integer), JsonView::Number(None, d)) is Err,
        decode(TypeView::Primitive(PrimitiveType::Boolean), JsonView::Str(s)) is Err,
        decode(TypeView::Primitive(PrimitiveType::Boolean), JsonView::Null) is Err,
        decode(TypeView::Primitive(PrimitiveType::Integer), JsonView::Str(s)) is Err,
        decode(TypeView::Primitive(PrimitiveType::Integer), JsonView::Bool(b)) is Err,
        decode(TypeView::Primitive(PrimitiveType::String), JsonView::Bool(b)) is Err,
        decode(TypeView::Primitive(PrimitiveType::String), JsonView::Number(n, d)) is Err,
        decode(TypeView::Primitive(PrimitiveType::Any), JsonView::Null) is Err,
        decode(TypeView::Primitive(PrimitiveType::Any), JsonView::Bool(b)) == Ok::<ConjureView, ()>(
            ConjureView::Any(JsonView::Bool(b)),
        ),
{
}

/// Reading an optional: `null` is the empty optional, and any other value is the optional
/// holding that value read as the item type, or fails where the item fails.
pub proof fn lemma_decode_optional(t: TypeView, v: JsonView)
    ensures
        decode(TypeView::Optional(Box::new(t)), JsonView::Null) == Ok::<ConjureView, ()>(
            ConjureView::Optional(None),
        ),
        v != JsonView::Null ==> match decode(t, v) {
            Ok(c) => decode(TypeView::Optional(Box::new(t)), v) == Ok::<ConjureView, ()>(
                ConjureView::Optional(Some(Box::new(c))),
            ),
            Err(_) => decode(TypeView::Optional(Box::new(t)), v) is Err,
        },
{
}

/// Reading items one by one: it succeeds exactly when every item reads, and then gives, item by
/// item, what each reads as.
pub proof fn lemma_decode_items(t: TypeView, xs: Seq<JsonView>)
    ensures
        decode_items(t, xs) is Ok <==> forall|i: int| 0 <= i < xs.len() ==> #[trigger] decode(t, xs[i]) is Ok,
        decode_items(t, xs) matches Ok(cs) ==> cs.len() == xs.len() && forall|i: int|
            0 <= i < xs.len() ==> #[trigger] decode(t, xs[i]) == Ok::<ConjureView, ()>(cs[i]),
    decreases xs.len(),
{
    if xs.len() > 0 {
        let d = xs.drop_last();
        lemma_decode_items(t, d);
        assert forall|i: int| 0 <= i < d.len() implies #[trigger] d[i] == xs[i] by {}
        if forall|i: int| 0 <= i < xs.len() ==> #[trigger] decode(t, xs[i]) is Ok {
            assert forall|i: int| 0 <= i < d.len() implies #[trigger] decode(t, d[i]) is Ok by {
                assert(decode(t, xs[i]) is Ok);
            }
            assert(decode(t, xs[xs.len() - 1]) is Ok);
        }
        match decode_items(t, d) {
            Ok(cs) => {
                match decode(t, xs[xs.len() - 1]) {
                    Ok(c) => {
                        let all = cs.push(c);
                        assert forall|i: int| 0 <= i < xs.len() implies #[trigger] decode(t, xs[i])
                            == Ok::<ConjureView, ()>(all[i]) by {
                            if i < xs.len() - 1 {
                                assert(decode(t, d[i]) == Ok::<ConjureView, ()>(cs[i]));
                            }
                        }
                    },
                    Err(_) => {},
                }
            },
            Err(_) => {
                let k = choose|k: int| 0 <= k < d.len() && !(#[trigger] decode(t, d[k]) is Ok);
                assert(decode(t, xs[k]) is Err);
            },
        }
    }
}

/// Reading a list: it reads exactly when it is an array whose every item reads as the item type,
/// and then holds, item by item, what each reads as.
pub proof fn lemma_decode_list(t: TypeView, v: JsonView)
    ensures
        decode(TypeView::List(Box::new(t)), v) is Ok <==> (v matches JsonView::Array(xs) && forall|i: int|
            0 <= i < xs.len() ==> #[trigger] decode(t, xs[i]) is Ok),
        decode(TypeView::List(Box::new(t)), v) matches Ok(c) ==> (c matches ConjureView::List(cs) && v matches JsonView::Array(
            xs,
        ) && cs.len() == xs.len() && forall|i: int|
            0 <= i < xs.len() ==> #[trigger] decode(t, xs[i]) == Ok::<ConjureView, ()>(cs[i])),
{
    match v {
        JsonView::Array(xs) => lemma_decode_items(t, xs),
        _ => {},
    }
}

/// Reading an enum: a string among the enum's values reads as that value, and nothing else reads.
pub proof fn lemma_decode_enum(values: Seq<Seq<char>>, v: JsonView)
    ensures
        decode(TypeView::Enum(values), v) is Ok <==> (v matches JsonView::Str(s) && values.contains(s)),
        decode(TypeView::Enum(values), v) matches Ok(c) ==> (v matches JsonView::Str(s) && c == ConjureView::Enum(s)),
{
}

/// Reading text as a primitive written as text: a string, a resource identifier and a datetime
/// keep the text as written; a binary value reads exactly when the text is standard base64; a
/// UUID reads exactly when the text is a UUID, and becomes its hyphenated form; a bearer token
/// reads exactly when the text is a valid token. A double reads from text only as `NaN`,
/// `Infinity` or `-Infinity`, which it keeps.
pub proof fn lemma_decode_text(s: Seq<char>)
    ensures
        decode(TypeView::Primitive(PrimitiveType::String), JsonView::Str(s)) == Ok::<ConjureView, ()>(
            ConjureView::Text(s),
        ),
        decode(TypeView::Primitive(PrimitiveType::Rid), JsonView::Str(s)) == Ok::<ConjureView, ()>(
            ConjureView::Text(s),
        ),
        decode(TypeView::Primitive(PrimitiveType::Datetime), JsonView::Str(s)) == Ok::<ConjureView, ()>(
            ConjureView::Text(s),
        ),
        decode(TypeView::Primitive(PrimitiveType::Binary), JsonView::Str(s)) is Ok <==> base64_decoded(s) is Some,
        decode(TypeView::Primitive(PrimitiveType::Binary), JsonView::Str(s)) is Ok ==> decode(
            TypeView::Primitive(PrimitiveType::Binary),
            JsonView::Str(s),
        ) == Ok::<ConjureView, ()>(ConjureView::Text(s)),
        match uuid_normalized(s) {
            Some(u) => decode(TypeView::Primitive(PrimitiveType::Uuid), JsonView::Str(s)) == Ok::<
                ConjureView,
                (),
            >(ConjureView::Text(u)),
            None => decode(TypeView::Primitive(PrimitiveType::Uuid), JsonView::Str(s)) is Err,
        },
        decode(TypeView::Primitive(PrimitiveType::Bearertoken), JsonView::Str(s)) is Ok <==> valid_token68(s),
        valid_token68(s) ==> decode(TypeView::Primitive(PrimitiveType::Bearertoken), JsonView::Str(s))
            == Ok::<ConjureView, ()>(ConjureView::Text(s)),
        decode(TypeView::Primitive(PrimitiveType::Double), JsonView::Str(s)) is Ok <==> (s == "NaN"@ || s
            == "Infinity"@ || s == "-Infinity"@),
        decode(TypeView::Primitive(PrimitiveType::Double), JsonView::Str(s)) is Ok ==> decode(
            TypeView::Primitive(PrimitiveType::Double),
            JsonView::Str(s),
        ) == Ok::<ConjureView, ()>(ConjureView::Double(s)),
{
}

/// Reading a map key: a text type reads the key as a JSON string of that text would read; a
/// boolean key is `true` or `false` and nothing else; an integer key is a decimal number in the
/// type's range; an enum key is one of the enum's values; other types take no keys.
pub proof fn lemma_decode_keys(s: Seq<char>, values: Seq<Seq<char>>, t: TypeView)
    ensures
        forall|p: PrimitiveType|
            is_text(p) ==> #[trigger] decode_key(TypeView::Primitive(p), s) == decode(
                TypeView::Primitive(p),
                JsonView::Str(s),
            ),
        decode_key(TypeView::Primitive(PrimitiveType::Boolean), s) is Ok <==> (s == "true"@ || s == "false"@),
        decode_key(TypeView::Primitive(PrimitiveType::Boolean), s) is Ok ==> decode_key(
            TypeView::Primitive(PrimitiveType::Boolean),
            s,
        ) == Ok::<ConjureView, ()>(ConjureView::Boolean(s == "true"@)),
        match spec_parse_int(s) {
            Some(i) => if -2147483648 <= i <= 2147483647 {
                decode_key(TypeView::Primitive(PrimitiveType::Integer), s) == Ok::<ConjureView, ()>(
                    ConjureView::Integer(i),
                )
            } else {
                decode_key(TypeView::Primitive(PrimitiveType::Integer), s) is Err
            },
            None => decode_key(TypeView::Primitive(PrimitiveType::Integer), s) is Err,
        },
        decode_key(TypeView::Enum(values), s) is Ok <==> values.contains(s),
        values.contains(s) ==> decode_key(TypeView::Enum(values), s) == Ok::<ConjureView, ()>(ConjureView::Enum(s)),
        decode_key(TypeView::Optional(Box::new(t)), s) is Err,
        decode_key(TypeView::List(Box::new(t)), s) is Err,
        decode_key(TypeView::Primitive(PrimitiveType::Double), s) is Err,
        decode_key(TypeView::Primitive(PrimitiveType::Any), s) is Err,
{
    reveal_strlit("true");
    reveal_strlit("false");
    assert("true"@.len() == 4 && "false"@.len() == 5);
}

/// The value a field that an object leaves out takes: empty for an optional, a list, a set or a
/// map; for any other type the field is required.
pub proof fn lemma_default_values(t: TypeView, k: TypeView, p: PrimitiveType, names: Seq<Seq<char>>, fields: Seq<(Seq<char>, TypeView)>)
    ensures
        default_value(TypeView::Optional(Box::new(t))) == Ok::<ConjureView, ()>(ConjureView::Optional(None)),
        default_value(TypeView::List(Box::new(t))) == Ok::<ConjureView, ()>(ConjureView::List(Seq::empty())),
        default_value(TypeView::SetOf(Box::new(t))) == Ok::<ConjureView, ()>(ConjureView::SetOf(Seq::empty())),
        default_value(TypeView::MapOf(Box::new(k), Box::new(t))) == Ok::<ConjureView, ()>(
            ConjureView::MapOf(Seq::empty()),
        ),
        default_value(TypeView::Primitive(p)) is Err,
        default_value(TypeView::Enum(names)) is Err,
        default_value(TypeView::Object(fields)) is Err,
        default_value(TypeView::Union(fields)) is Err,
{
}

/// Reading a set: it reads only from an array whose items all read, item by item; and an array
/// two of whose items read as the same value does not read as a set.
pub proof fn lemma_decode_set(t: TypeView, v: JsonView, i: int, j: int)
    ensures
        decode(TypeView::SetOf(Box::new(t)), v) matches Ok(c) ==> (c matches ConjureView::SetOf(cs) && v matches JsonView::Array(
            xs,
        ) && cs.len() == xs.len() && (forall|k: int|
            0 <= k < xs.len() ==> #[trigger] decode(t, xs[k]) == Ok::<ConjureView, ()>(cs[k])) && forall|a: int, b: int|
            0 <= a < b < cs.len() ==> !#[trigger] same(cs[a], cs[b])),
        (v matches JsonView::Array(xs) && 0 <= i < j < xs.len() && decode(t, xs[i]) is Ok && decode(t, xs[j]) is Ok
            && same(decode(t, xs[i])->Ok_0, decode(t, xs[j])->Ok_0)) ==> decode(TypeView::SetOf(Box::new(t)), v) is Err,
{
    match v {
        JsonView::Array(xs) => {
            lemma_decode_items(t, xs);
            match decode_items(t, xs) {
                Ok(cs) => {
                    if 0 <= i < j < xs.len() && decode(t, xs[i]) is Ok && decode(t, xs[j]) is Ok && same(
                        decode(t, xs[i])->Ok_0,
                        decode(t, xs[j])->Ok_0,
                    ) {
                        assert(decode(t, xs[i]) == Ok::<ConjureView, ()>(cs[i]));
                        assert(decode(t, xs[j]) == Ok::<ConjureView, ()>(cs[j]));
                        assert(same(cs[i], cs[j]));
                        assert(has_duplicates(cs));
                    }
                },
                Err(_) => {},
            }
        },
        _ => {},
    }
}

/// Reading entries one by one: it succeeds only when every key reads as the key type and every
/// value as the value type, and then gives, entry by entry, what each reads as.
proof fn lemma_decode_entries(k: TypeView, t: TypeView, es: Seq<(Seq<char>, JsonView)>)
    ensures
        decode_entries(k, t, es) matches Ok(ps) ==> ps.len() == es.len() && forall|i: int|
            0 <= i < es.len() ==> #[trigger] decode_key(k, es[i].0) == Ok::<ConjureView, ()>(ps[i].0) && decode(
                t,
                es[i].1,
            ) == Ok::<ConjureView, ()>(ps[i].1),
    decreases es.len(),
{
    if es.len() > 0 {
        let d = es.drop_last();
        lemma_decode_entries(k, t, d);
        match decode_entries(k, t, es) {
            Ok(ps) => {
                let qs = decode_entries(k, t, d)->Ok_0;
                assert(ps == qs.push(ps[ps.len() - 1]));
                assert forall|i: int| 0 <= i < es.len() implies #[trigger] decode_key(k, es[i].0) == Ok::<
                    ConjureView,
                    (),
                >(ps[i].0) && decode(t, es[i].1) == Ok::<ConjureView, ()>(ps[i].1) by {
                    if i < es.len() - 1 {
                        assert(d[i] == es[i]);
                        assert(decode_key(k, d[i].0) == Ok::<ConjureView, ()>(qs[i].0));
                    }
                }
            },
            Err(_) => {},
        }
    }
}

/// Reading a map: it reads only from a JSON object, with an entry for each entry of the object,
/// whose key reads as the key type and whose value reads as the value type; no two keys are the
/// same.
pub proof fn lemma_decode_map(k: TypeView, t: TypeView, v: JsonView)
    ensures
        decode(TypeView::MapOf(Box::new(k), Box::new(t)), v) matches Ok(c) ==> (c matches ConjureView::MapOf(ps)
            && v matches JsonView::Object(es) && ps.len() == es.len() && (forall|i: int|
            0 <= i < es.len() ==> #[trigger] decode_key(k, es[i].0) == Ok::<ConjureView, ()>(ps[i].0) && decode(
                t,
                es[i].1,
            ) == Ok::<ConjureView, ()>(ps[i].1)) && forall|a: int, b: int|
            0 <= a < b < ps.len() ==> !#[trigger] same(ps[a].0, ps[b].0)),
{
    match v {
        JsonView::Object(es) => lemma_decode_entries(k, t, es),
        _ => {},
    }
}

/// Reading the fields of an object one by one gives, field by field, the value of the entry
/// that names it, or the field's empty value where no entry does.
proof fn lemma_decode_fields(fields: Seq<(Seq<char>, TypeView)>, es: Seq<(Seq<char>, JsonView)>)
    ensures
        decode_fields(fields, es) matches Ok(cs) ==> cs.len() == fields.len() && forall|i: int|
            0 <= i < fields.len() ==> match entry_index(es, #[trigger] fields[i].0) {
                Some(k) => 0 <= k < es.len() && decode(fields[i].1, es[k].1) == Ok::<ConjureView, ()>(cs[i]),
                None => default_value(fields[i].1) == Ok::<ConjureView, ()>(cs[i]),
            },
    decreases fields.len(),
{
    if fields.len() > 0 {
        let d = fields.drop_last();
        lemma_decode_fields(d, es);
        match decode_fields(fields, es) {
            Ok(cs) => {
                let qs = decode_fields(d, es)->Ok_0;
                assert(cs == qs.push(cs[cs.len() - 1]));
                assert forall|i: int| 0 <= i < fields.len() implies match entry_index(es, #[trigger] fields[i].0) {
                    Some(k) => 0 <= k < es.len() && decode(fields[i].1, es[k].1) == Ok::<ConjureView, ()>(cs[i]),
                    None => default_value(fields[i].1) == Ok::<ConjureView, ()>(cs[i]),
                } by {
                    if i < fields.len() - 1 {
                        assert(d[i] == fields[i]);
                        assert(cs[i] == qs[i]);
                    }
                }
            },
            Err(_) => {},
        }
    }
}

/// Where some pair is called `name`, a first one is.
proof fn lemma_first_named<T>(ps: Seq<(Seq<char>, T)>, name: Seq<char>, i: int)
    requires
        0 <= i < ps.len(),
        ps[i].0 == name,
    ensures
        exists|m: int| 0 <= m < ps.len() && ps[m].0 == name && forall|j: int| 0 <= j < m ==> #[trigger] ps[j].0 != name,
    decreases i,
{
    if exists|j: int| 0 <= j < i && ps[j].0 == name {
        let j = choose|j: int| 0 <= j < i && ps[j].0 == name;
        lemma_first_named(ps, name, j);
    } else {
        assert(forall|j: int| 0 <= j < i ==> #[trigger] ps[j].0 != name);
    }
}

/// The first field called `name` is called `name`, and there is one exactly when some field is.
proof fn lemma_field_index(fields: Seq<(Seq<char>, TypeView)>, name: Seq<char>)
    ensures
        field_index(fields, name) is Some <==> exists|i: int| 0 <= i < fields.len() && #[trigger] fields[i].0 == name,
        field_index(fields, name) matches Some(f) ==> 0 <= f < fields.len() && fields[f].0 == name,
{
    if exists|i: int| 0 <= i < fields.len() && #[trigger] fields[i].0 == name {
        let i = choose|i: int| 0 <= i < fields.len() && #[trigger] fields[i].0 == name;
        lemma_first_named(fields, name, i);
    }
}

/// The first entry called `name` is called `name`, no earlier one is, and there is one exactly
/// when some entry is.
proof fn lemma_entry_index(es: Seq<(Seq<char>, JsonView)>, name: Seq<char>)
    ensures
        entry_index(es, name) is Some <==> exists|i: int| 0 <= i < es.len() && #[trigger] es[i].0 == name,
        entry_index(es, name) matches Some(e) ==> 0 <= e < es.len() && es[e].0 == name && forall|j: int|
            0 <= j < e ==> #[trigger] es[j].0 != name,
{
    if exists|i: int| 0 <= i < es.len() && #[trigger] es[i].0 == name {
        let i = choose|i: int| 0 <= i < es.len() && #[trigger] es[i].0 == name;
        lemma_first_named(es, name, i);
    }
}

/// Reading an object: the value read holds, field by field, the value of the entry that names
/// the field, and where no entry names it, the field's empty value.
pub proof fn lemma_decode_object(fields: Seq<(Seq<char>, TypeView)>, es: Seq<(Seq<char>, JsonView)>, i: int, k: int)
    ensures
        match decode(TypeView::Object(fields), JsonView::Object(es)) {
            Ok(ConjureView::Object(cs)) => {
                &&& cs.len() == fields.len()
                &&& (0 <= i < fields.len() && 0 <= k < es.len() && es[k].0 == fields[i].0) ==> decode(
                    fields[i].1,
                    es[k].1,
                ) == Ok::<ConjureView, ()>(cs[i])
                &&& (0 <= i < fields.len() && forall|m: int| 0 <= m < es.len() ==> #[trigger] es[m].0 != fields[i].0)
                    ==> default_value(fields[i].1) == Ok::<ConjureView, ()>(cs[i])
            },
            Ok(_) => false,
            Err(_) => true,
        },
{
    lemma_decode_fields(fields, es);
    if entries_fit(fields, es) {
        match decode_fields(fields, es) {
            Ok(cs) => {
                if 0 <= i < fields.len() {
                    lemma_entry_index(es, fields[i].0);
                    assert(match entry_index(es, fields[i].0) {
                        Some(e) => 0 <= e < es.len() && decode(fields[i].1, es[e].1) == Ok::<ConjureView, ()>(cs[i]),
                        None => default_value(fields[i].1) == Ok::<ConjureView, ()>(cs[i]),
                    });
                    if 0 <= k < es.len() && es[k].0 == fields[i].0 {
                        let e = entry_index(es, fields[i].0)->Some_0;
                        if e != k {
                            if e < k {
                                assert(es[e].0 != es[k].0);
                            } else {
                                assert(es[k].0 != es[e].0);
                            }
                        }
                    }
                }
            },
            Err(_) => {},
        }
    }
}

/// An object with an entry that names no field, or with two entries of the same name, does not
/// read.
pub proof fn lemma_decode_object_refuses(fields: Seq<(Seq<char>, TypeView)>, es: Seq<(Seq<char>, JsonView)>, i: int, k: int)
    ensures
        (0 <= k < es.len() && forall|m: int| 0 <= m < fields.len() ==> #[trigger] fields[m].0 != es[k].0)
            ==> decode(TypeView::Object(fields), JsonView::Object(es)) is Err,
        (0 <= i < k < es.len() && es[i].0 == es[k].0) ==> decode(TypeView::Object(fields), JsonView::Object(es)) is Err,
{
    if 0 <= k < es.len() {
        lemma_field_index(fields, es[k].0);
    }
}

/// Reading a union: it reads only from a JSON object of two entries, one of which is `type`
/// naming the variant, the other holding the variant's value under the variant's name.
pub proof fn lemma_decode_union(variants: Seq<(Seq<char>, TypeView)>, v: JsonView)
    ensures
        decode(TypeView::Union(variants), v) matches Ok(c) ==> (c matches ConjureView::Union(name, x) && v matches JsonView::Object(
            es,
        ) && es.len() == 2 && name != "type"@ && ((es[0] == ("type"@, JsonView::Str(name)) && es[1].0 == name) || (
        es[1] == ("type"@, JsonView::Str(name)) && es[0].0 == name))),
{
    match v {
        JsonView::Object(es) => {
            assert(decode(TypeView::Union(variants), v) == decode_union(variants, es));
            if decode_union(variants, es) is Ok && es.len() == 2 {
                let t = if es[0].0 == "type"@ { 0int } else { 1int };
                let o = 1 - t;
                if let JsonView::Str(name) = es[t].1 {
                    assert(es[t] == (es[t].0, es[t].1));
                    assert(es[t].0 == "type"@ && es[o].0 == name && name != "type"@);
                    match decode_union(variants, es) {
                        Ok(c) => {
                            assert(c matches ConjureView::Union(n, _) && n == name);
                        },
                        Err(_) => {},
                    }
                }
            }
        },
        _ => {},
    }
}

/// The value of a union read from an object is the entry under the variant's name, read as the
/// variant's type where the union defines the variant, and kept as any value where it does not.
pub proof fn lemma_decode_union_value(variants: Seq<(Seq<char>, TypeView)>, es: Seq<(Seq<char>, JsonView)>)
    ensures
        match decode(TypeView::Union(variants), JsonView::Object(es)) {
            Ok(ConjureView::Union(name, x)) => exists|o: int|
                0 <= o < es.len() && #[trigger] es[o].0 == name && match field_index(variants, name) {
                    Some(k) => 0 <= k < variants.len() && decode(variants[k].1, es[o].1) == Ok::<ConjureView, ()>(*x),
                    None => *x == ConjureView::Any(es[o].1),
                },
            _ => true,
        },
{
    assert(decode(TypeView::Union(variants), JsonView::Object(es)) == decode_union(variants, es));
    if es.len() == 2 {
        let t = if es[0].0 == "type"@ { 0int } else { 1int };
        let o = 1 - t;
        if let JsonView::Str(name) = es[t].1 {
            if es[t].0 == "type"@ && es[o].0 == name && name != "type"@ {
                assert(es[o].0 == name);
            }
        }
    }
}

/// Values of the same scalar kind are the same exactly when they are equal; values of different
/// kinds are never the same.
pub proof fn lemma_same_scalars(i: int, j: int, s: Seq<char>, u: Seq<char>, b: bool, c: bool)
    ensures
        same(ConjureView::Integer(i), ConjureView::Integer(j)) <==> i == j,
        same(ConjureView::Text(s), ConjureView::Text(u)) <==> s == u,
        same(ConjureView::Double(s), ConjureView::Double(u)) <==> s == u,
        same(ConjureView::Enum(s), ConjureView::Enum(u)) <==> s == u,
        same(ConjureView::Boolean(b), ConjureView::Boolean(c)) <==> b == c,
        !same(ConjureView::Integer(i), ConjureView::Text(s)),
        !same(ConjureView::Text(s), ConjureView::Enum(u)),
        !same(ConjureView::Boolean(b), ConjureView::Integer(i)),
        !same(ConjureView::Text(s), ConjureView::Double(u)),
        forall|x: JsonView, y: JsonView| #[trigger] same(ConjureView::Any(x), ConjureView::Any(y)) <==> x == y,
{
}

/// Two union values are the same exactly when they name the same variant and their values are
/// the same: union values of different variants are never the same.
pub proof fn lemma_same_union(va: Seq<char>, x: ConjureView, vb: Seq<char>, y: ConjureView)
    ensures
        same(ConjureView::Union(va, Box::new(x)), ConjureView::Union(vb, Box::new(y))) ==> va == vb,
        same(ConjureView::Union(va, Box::new(x)), ConjureView::Union(vb, Box::new(y))) <==> (va == vb && same(x, y)),
{
}

/// Two optionals are the same exactly when both are empty, or both hold values that are the same.
pub proof fn lemma_same_optional(x: ConjureView, y: ConjureView)
    ensures
        same(ConjureView::Optional(None), ConjureView::Optional(None)),
        !same(ConjureView::Optional(Some(Box::new(x))), ConjureView::Optional(None)),
        !same(ConjureView::Optional(None), ConjureView::Optional(Some(Box::new(y)))),
        same(ConjureView::Optional(Some(Box::new(x))), ConjureView::Optional(Some(Box::new(y)))) <==> same(x, y),
{
}

/// Two lists, or two objects, are the same exactly when they are as long as each other and the
/// same item by item, in order.
pub proof fn lemma_same_lists(xs: Seq<ConjureView>, ys: Seq<ConjureView>)
    ensures
        same(ConjureView::List(xs), ConjureView::List(ys)) <==> (xs.len() == ys.len() && forall|i: int|
            0 <= i < xs.len() ==> #[trigger] same(xs[i], ys[i])),
        same(ConjureView::Object(xs), ConjureView::Object(ys)) <==> (xs.len() == ys.len() && forall|i: int|
            0 <= i < xs.len() ==> #[trigger] same(xs[i], ys[i])),
        !same(ConjureView::List(xs), ConjureView::SetOf(ys)),
{
    lemma_same_each(xs, ys);
}

/// Sets are the same whatever the order of their items: a set and any reordering of it are the
/// same.
pub proof fn lemma_same_set_any_order(xs: Seq<ConjureView>, ys: Seq<ConjureView>)
    requires
        ys.to_multiset() == xs.to_multiset(),
    ensures
        same(ConjureView::SetOf(xs), ConjureView::SetOf(ys)),
{
    xs.to_multiset_ensures();
    ys.to_multiset_ensures();
    assert forall|i: int| 0 <= i < xs.len() implies #[trigger] has_same(xs[i], ys) by {
        let x = xs[i];
        assert(xs.contains(x));
        assert(xs.to_multiset().count(x) > 0);
        assert(ys.to_multiset().count(x) > 0);
        assert(ys.contains(x));
        let j = choose|j: int| 0 <= j < ys.len() && ys[j] == x;
        lemma_same_reflexive(x);
        lemma_has_same(x, ys);
        assert(same(x, ys[j]));
    }
    assert forall|j: int| 0 <= j < ys.len() implies #[trigger] has_same_in(xs, ys[j]) by {
        let y = ys[j];
        assert(ys.contains(y));
        assert(ys.to_multiset().count(y) > 0);
        assert(xs.to_multiset().count(y) > 0);
        assert(xs.contains(y));
        let i = choose|i: int| 0 <= i < xs.len() && xs[i] == y;
        lemma_same_reflexive(y);
        lemma_has_same_in(xs, y);
        assert(same(xs[i], y));
    }
    lemma_each_has_same(xs, ys);
    lemma_each_has_same_in(xs, ys);
}

/// A set that holds an item the same as no item of another set is not the same as it.
pub proof fn lemma_sets_differ(xs: Seq<ConjureView>, ys: Seq<ConjureView>, i: int)
    requires
        0 <= i < xs.len(),
        forall|j: int| 0 <= j < ys.len() ==> !same(xs[i], #[trigger] ys[j]),
    ensures
        !same(ConjureView::SetOf(xs), ConjureView::SetOf(ys)),
{
    lemma_has_same(xs[i], ys);
    lemma_each_has_same(xs, ys);
}

/// Maps are the same whatever the order of their entries: a map and any reordering of it are the
/// same.
pub proof fn lemma_same_map_any_order(ps: Seq<(ConjureView, ConjureView)>, qs: Seq<(ConjureView, ConjureView)>)
    requires
        qs.to_multiset() == ps.to_multiset(),
    ensures
        same(ConjureView::MapOf(ps), ConjureView::MapOf(qs)),
{
    ps.to_multiset_ensures();
    qs.to_multiset_ensures();
    assert forall|i: int| 0 <= i < ps.len() implies #[trigger] has_same_pair(ps[i], qs) by {
        let p = ps[i];
        assert(ps.contains(p));
        assert(ps.to_multiset().count(p) > 0);
        assert(qs.to_multiset().count(p) > 0);
        assert(qs.contains(p));
        let j = choose|j: int| 0 <= j < qs.len() && qs[j] == p;
        lemma_same_reflexive(p.0);
        lemma_same_reflexive(p.1);
        lemma_has_same_pair(p, qs);
        assert(same(p.0, qs[j].0) && same(p.1, qs[j].1));
    }
    assert forall|j: int| 0 <= j < qs.len() implies #[trigger] has_same_pair_in(ps, qs[j]) by {
        let q = qs[j];
        assert(qs.contains(q));
        assert(qs.to_multiset().count(q) > 0);
        assert(ps.to_multiset().count(q) > 0);
        assert(ps.contains(q));
        let i = choose|i: int| 0 <= i < ps.len() && ps[i] == q;
        lemma_same_reflexive(q.0);
        lemma_same_reflexive(q.1);
        lemma_has_same_pair_in(ps, q);
        assert(same(ps[i].0, q.0) && same(ps[i].1, q.1));
    }
    lemma_each_pair_has_same(ps, qs);
    lemma_each_pair_has_same_in(ps, qs);
}

/// Every value is the same as itself.
pub proof fn lemma_same_reflexive(a: ConjureView)
    ensures
        same(a, a),
    decreases a,
{
    match a {
        ConjureView::Optional(Some(x)) => {
            lemma_same_reflexive(*x);
        },
        ConjureView::List(xs) => {
            assert forall|i: int| 0 <= i < xs.len() implies #[trigger] same(xs[i], xs[i]) by {
                assert(decreases_to!(a => xs[i]));
                lemma_same_reflexive(xs[i]);
            }
            lemma_same_each(xs, xs);
        },
        ConjureView::Object(xs) => {
            assert forall|i: int| 0 <= i < xs.len() implies #[trigger] same(xs[i], xs[i]) by {
                assert(decreases_to!(a => xs[i]));
                lemma_same_reflexive(xs[i]);
            }
            lemma_same_each(xs, xs);
        },
        ConjureView::SetOf(xs) => {
            assert forall|i: int| 0 <= i < xs.len() implies #[trigger] same(xs[i], xs[i]) by {
                assert(decreases_to!(a => xs[i]));
                lemma_same_reflexive(xs[i]);
            }
            assert forall|i: int| 0 <= i < xs.len() implies #[trigger] has_same(xs[i], xs) by {
                lemma_has_same(xs[i], xs);
                assert(same(xs[i], xs[i]));
            }
            assert forall|j: int| 0 <= j < xs.len() implies #[trigger] has_same_in(xs, xs[j]) by {
                lemma_has_same_in(xs, xs[j]);
                assert(same(xs[j], xs[j]));
            }
            lemma_each_has_same(xs, xs);
            lemma_each_has_same_in(xs, xs);
        },
        ConjureView::MapOf(ps) => {
            assert forall|i: int| 0 <= i < ps.len() implies #[trigger] same(ps[i].0, ps[i].0) && same(
                ps[i].1,
                ps[i].1,
            ) by {
                assert(decreases_to!(a => ps[i].0));
                assert(decreases_to!(a => ps[i].1));
                lemma_same_reflexive(ps[i].0);
                lemma_same_reflexive(ps[i].1);
            }
            assert forall|i: int| 0 <= i < ps.len() implies #[trigger] has_same_pair(ps[i], ps) by {
                lemma_has_same_pair(ps[i], ps);
                assert(same(ps[i].0, ps[i].0) && same(ps[i].1, ps[i].1));
            }
            assert forall|j: int| 0 <= j < ps.len() implies #[trigger] has_same_pair_in(ps, ps[j]) by {
                lemma_has_same_pair_in(ps, ps[j]);
                assert(same(ps[j].0, ps[j].0) && same(ps[j].1, ps[j].1));
            }
            lemma_each_pair_has_same(ps, ps);
            lemma_each_pair_has_same_in(ps, ps);
        },
        ConjureView::Union(v, x) => {
            lemma_same_reflexive(*x);
        },
        _ => {},
    }
}

} // verus!
