use conjure_verification::naming::{pascal_to_camel, pascal_to_screaming, snake_to_camel, unknown_variant};
use conjure_verification::cases::{is_union_type_field, EnumKind, UnionTypeField, VariantShape};

#[test]
fn snake_case_to_camel_case() {
    assert_eq!(snake_to_camel("fizz_buzz"), "fizzBuzz");
    assert_eq!(snake_to_camel("the_count"), "theCount");
    assert_eq!(snake_to_camel("a__b"), "aB");
    assert_eq!(snake_to_camel("trailing_"), "trailing");
    assert_eq!(snake_to_camel(""), "");
}

#[test]
fn pascal_case_to_screaming_case() {
    assert_eq!(pascal_to_screaming("FizzBuzz"), "FIZZ_BUZZ");
    assert_eq!(pascal_to_screaming("Bar"), "BAR");
    assert_eq!(pascal_to_screaming("ABC"), "A_B_C");
}

#[test]
fn pascal_case_to_camel_case() {
    assert_eq!(pascal_to_camel("FizzBuzz"), "fizzBuzz");
    assert_eq!(pascal_to_camel("Bar"), "bar");
    assert_eq!(pascal_to_camel(""), "");
}

#[test]
fn union_tag_field() {
    assert!(UnionTypeField::from_field_name("type").is_some());
    assert!(UnionTypeField::from_field_name("bar").is_none());
    assert!(is_union_type_field("type"));
    assert!(!is_union_type_field("Type"));
}

#[test]
fn enum_kinds() {
    assert!(EnumKind::of(&[VariantShape::Unit, VariantShape::Unit]) == EnumKind::CLike);
    assert!(EnumKind::of(&[VariantShape::Newtype]) == EnumKind::Union);
    assert!(EnumKind::of(&[]) == EnumKind::CLike);
}

#[test]
fn unknown_variant_messages() {
    assert_eq!(unknown_variant("foo", &[]), "unknown variant `foo`, there are no variants");
    assert_eq!(
        unknown_variant("foo", &["bar", "baz"]),
        "unknown variant `foo`, expected one of: bar, baz"
    );
}
