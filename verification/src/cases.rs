use vstd::prelude::*;
use crate::text::str_eq;

verus! {

/// The kinds of test that a service can be checked with.
#[derive(Copy, Clone, Debug, PartialEq, Eq, Structural, Hash)]
pub enum TestType {
    Body,
    SinglePathParam,
    SingleQueryParam,
    SingleHeaderParam,
}

/// The test cases of one endpoint: bodies it must accept and bodies it must reject.
pub struct PositiveAndNegativeTestCases {
    pub positive: Vec<String>,
    pub negative: Vec<String>,
}

/// A body that an endpoint must accept.
pub struct AutoDeserializePositiveTest(pub String);

/// A body that an endpoint must reject.
pub struct AutoDeserializeNegativeTest(pub String);

/// One test case of an endpoint.
pub enum TestCase {
    Positive(AutoDeserializePositiveTest),
    Negative(AutoDeserializeNegativeTest),
}

/// The field name that tags the variant of a serialized union.
pub struct UnionTypeField;

impl UnionTypeField {
    /// Reads the tag field of a serialized union: only the name `type` is one.
    pub fn from_field_name(value: &str) -> (res: Option<UnionTypeField>)
        ensures
            res is Some <==> value@ == "type"@,
    {
        if str_eq(value, "type") {
            Some(UnionTypeField)
        } else {
            None
        }
    }
}

/// A field of a serialized union: its tag, or the field that holds its value.
pub enum UnionField<T> {
    Type,
    Data(T),
}

/// Whether a field name of a serialized union names its tag rather than its value.
pub fn is_union_type_field(value: &str) -> (res: bool)
    ensures
        res == (value@ == "type"@),
{
    str_eq(value, "type")
}

/// The shape of a variant of an enum: no fields, or one unnamed field, or anything else.
pub enum VariantShape {
    Unit,
    Newtype,
    Other,
}

/// How an enum is serialized: by the names of its variants, or as a union of their values.
#[derive(PartialEq, Eq, Structural)]
pub enum EnumKind {
    CLike,
    Union,
}

/// Every variant has the given shape.
pub open spec fn all_shaped(variants: Seq<VariantShape>, unit: bool) -> bool {
    forall|i: int|
        0 <= i < variants.len() ==> if unit {
            #[trigger] variants[i] is Unit
        } else {
            variants[i] is Newtype
        }
}

impl EnumKind {
    /// Decides how an enum is serialized: an enum of unit variants by name, one of single-field
    /// variants as a union. An enum with no variants counts as unit-like; the variants of any
    /// other enum must be all of one of the two shapes.
    pub fn of(variants: &[VariantShape]) -> (res: EnumKind)
        requires
            all_shaped(variants@, true) || all_shaped(variants@, false),
        ensures
            (res == EnumKind::CLike) == all_shaped(variants@, true),
    {
        let mut i: usize = 0;
        while i < variants.len()
            invariant
                i <= variants@.len(),
                all_shaped(variants@.take(i as int), true),
            decreases variants@.len() - i,
        {
            match variants[i] {
                VariantShape::Unit => {},
                _ => {
                    return EnumKind::Union;
                },
            }
            i = i + 1;
        }
        assert(variants@.take(variants@.len() as int) =~= variants@);
        EnumKind::CLike
    }
}

} // verus!
