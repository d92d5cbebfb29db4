use tpu_toolkit::conditional_option::{ConditionalOption, SkipVariantError};
use tpu_toolkit::option_serializer::{OptionSerializer, OptionalValue};

#[test]
fn conditional_option_default_is_absent() {
    assert_eq!(ConditionalOption::<u8>::default(), ConditionalOption::Absent);
}

#[test]
fn conditional_option_or_skip_and_from() {
    assert_eq!(ConditionalOption::or_skip(Some(5u32)), ConditionalOption::Present(5));
    assert_eq!(ConditionalOption::<u32>::or_skip(None), ConditionalOption::Skip);
    assert_eq!(ConditionalOption::from(Some(5u32)), ConditionalOption::Present(5));
    assert_eq!(ConditionalOption::<u32>::from(None), ConditionalOption::Absent);
    assert!(ConditionalOption::<u32>::or_skip(None).should_skip());
    assert!(!ConditionalOption::<u32>::from(None).should_skip());
    assert!(!ConditionalOption::Present(1u8).should_skip());
}

#[test]
fn conditional_option_serialized_item() {
    assert_eq!(ConditionalOption::Present(3u8).serialized_item(), Ok(Some(&3u8)));
    assert_eq!(ConditionalOption::<u8>::Absent.serialized_item(), Ok(None));
    let err = ConditionalOption::<u8>::Skip.serialized_item().unwrap_err();
    assert_eq!(err, SkipVariantError);
    assert_eq!(err.message(), "Skip variants should not be serialized");
}

#[test]
fn option_serializer_basics() {
    assert_eq!(OptionSerializer::<u8>::default(), OptionSerializer::Absent);
    assert_eq!(OptionSerializer::<u8>::skip(), OptionSerializer::Skip);
    assert!(OptionSerializer::<u8>::skip().should_skip());
    assert!(!OptionSerializer::Present(1u8).should_skip());
    assert_eq!(OptionSerializer::from(Some(2u8)), OptionSerializer::Present(2));
    assert_eq!(OptionSerializer::<u8>::from(None), OptionSerializer::Absent);
    assert_eq!(OptionSerializer::<u8>::deserialized(None), OptionSerializer::Absent);
    assert_eq!(OptionSerializer::Present(4u8).serialized_item(), Ok(Some(&4u8)));
    assert_eq!(OptionSerializer::<u8>::Absent.serialized_item(), Ok(None));
    assert!(OptionSerializer::<u8>::Skip.serialized_item().is_err());
}

#[test]
fn optional_value_constructors() {
    assert_eq!(OptionalValue::<u8>::skip().value(), &OptionSerializer::Skip);
    assert_eq!(OptionalValue::some(9u8).value(), &OptionSerializer::Present(9));
    assert_eq!(OptionalValue::unwrap_or_skip(Some(9u8)), OptionalValue::some(9u8));
    assert_eq!(OptionalValue::<u8>::unwrap_or_skip(None), OptionalValue::skip());
    assert_eq!(OptionalValue::<u8>::default().into_value(), OptionSerializer::Absent);
    assert_eq!(OptionalValue::from(OptionSerializer::Present(1u8)), OptionalValue::some(1u8));
}
