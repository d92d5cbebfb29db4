use crate::conditional_option::SkipVariantError;
use vstd::prelude::*;
use vstd::std_specs::convert::FromSpecImpl;

verus! {

/// A value that is present, absent (written as null), or to be left out of
/// the serialized output.
#[derive(Clone, Debug, PartialEq)]
pub enum OptionSerializer<T> {
    Present(T),
    Absent,
    Skip,
}

/// The serializer value holding what `option` holds, absent when it is absent.
pub open spec fn spec_serializer_from_option<T>(option: Option<T>) -> OptionSerializer<T> {
    match option {
        Option::Some(item) => OptionSerializer::Present(item),
        Option::None => OptionSerializer::Absent,
    }
}

impl<T> Default for OptionSerializer<T> {
    /// The absent value.
    fn default() -> (r: OptionSerializer<T>)
        ensures
            r == OptionSerializer::<T>::Absent,
    {
        OptionSerializer::Absent
    }
}

impl<T> OptionSerializer<T> {
    /// The value to be left out of the output.
    pub fn skip() -> (r: OptionSerializer<T>)
        ensures
            r == OptionSerializer::<T>::Skip,
    {
        OptionSerializer::Skip
    }

    /// Whether the value is to be left out of the output.
    pub fn should_skip(&self) -> (r: bool)
        ensures
            r == (*self is Skip),
    {
        match self {
            OptionSerializer::Skip => true,
            _ => false,
        }
    }

    /// What serializing the value writes: the held item, nothing (the writer
    /// then puts null), or an error for a value marked to be left out.
    pub fn serialized_item(&self) -> (r: Result<Option<&T>, SkipVariantError>)
        ensures
            match *self {
                OptionSerializer::Present(item) => r == Ok::<Option<&T>, SkipVariantError>(Some(&item)),
                OptionSerializer::Absent => r == Ok::<Option<&T>, SkipVariantError>(None),
                OptionSerializer::Skip => r == Err::<Option<&T>, SkipVariantError>(SkipVariantError),
            },
    {
        match self {
            OptionSerializer::Present(item) => Ok(Some(item)),
            OptionSerializer::Absent => Ok(None),
            OptionSerializer::Skip => Err(SkipVariantError),
        }
    }

    /// The value read back from a deserialized optional item.
    pub fn deserialized(option: Option<T>) -> (r: OptionSerializer<T>)
        ensures
            r == spec_serializer_from_option(option),
    {
        OptionSerializer::from(option)
    }
}

impl<T> From<Option<T>> for OptionSerializer<T> {
    /// The value held by `option`, absent when there is none.
    fn from(option: Option<T>) -> (r: OptionSerializer<T>) {
        match option {
            Option::Some(item) => OptionSerializer::Present(item),
            Option::None => OptionSerializer::Absent,
        }
    }
}

impl<T> FromSpecImpl<Option<T>> for OptionSerializer<T> {
    open spec fn obeys_from_spec() -> bool {
        true
    }

    open spec fn from_spec(v: Option<T>) -> OptionSerializer<T> {
        spec_serializer_from_option(v)
    }
}

/// A field whose value may be present, null, or left out of the output; it
/// is left out when it was never set.
#[derive(Clone, Debug, PartialEq)]
pub struct OptionalValue<T> {
    value: OptionSerializer<T>,
}

/// What a field built by `unwrap_or_skip` from `option` holds.
pub open spec fn spec_unwrap_or_skip<T>(option: Option<T>) -> OptionSerializer<T> {
    match option {
        Option::Some(item) => OptionSerializer::Present(item),
        Option::None => OptionSerializer::Skip,
    }
}

impl<T> OptionalValue<T> {
    /// The wrapped serializer value.
    pub closed spec fn inner(&self) -> OptionSerializer<T> {
        self.value
    }

    /// A field to be left out of the output.
    pub fn skip() -> (r: OptionalValue<T>)
        ensures
            r.inner() == OptionSerializer::<T>::Skip,
    {
        OptionSerializer::skip().into()
    }

    /// A field holding `value`.
    pub fn some(value: T) -> (r: OptionalValue<T>)
        ensures
            r.inner() == OptionSerializer::Present(value),
    {
        OptionSerializer::Present(value).into()
    }

    /// A field holding the item of `option`, or one to be left out when there
    /// is none.
    pub fn unwrap_or_skip(option: Option<T>) -> (r: OptionalValue<T>)
        ensures
            r.inner() == spec_unwrap_or_skip(option),
    {
        match option {
            Option::Some(item) => Self::some(item),
            Option::None => Self::skip(),
        }
    }

    /// The wrapped serializer value.
    pub fn value(&self) -> (r: &OptionSerializer<T>)
        ensures
            *r == self.inner(),
    {
        &self.value
    }

    /// The wrapped serializer value, taken out.
    pub fn into_value(self) -> (r: OptionSerializer<T>)
        ensures
            r == self.inner(),
    {
        self.value
    }
}

impl<T> From<OptionSerializer<T>> for OptionalValue<T> {
    /// The field wrapping `value`.
    fn from(value: OptionSerializer<T>) -> (r: OptionalValue<T>) {
        OptionalValue { value }
    }
}

impl<T> FromSpecImpl<OptionSerializer<T>> for OptionalValue<T> {
    open spec fn obeys_from_spec() -> bool {
        true
    }

    closed spec fn from_spec(v: OptionSerializer<T>) -> OptionalValue<T> {
        OptionalValue { value: v }
    }
}

impl<T> Default for OptionalValue<T> {
    /// A field holding the absent value.
    fn default() -> (r: OptionalValue<T>)
        ensures
            r.inner() == OptionSerializer::<T>::Absent,
    {
        OptionalValue { value: OptionSerializer::default() }
    }
}

/// A field built from a present item holds what `some` of it holds; one built
/// from nothing is left out, as `skip` is; it differs from converting the
/// option, which makes an absent value, only when there is no item.
pub proof fn law_unwrap_or_skip<T>(option: Option<T>)
    ensures
        (spec_unwrap_or_skip(option) is Skip) == (option is None),
        option matches Option::Some(item) ==> spec_unwrap_or_skip(option) == OptionSerializer::Present(item),
        option is Some ==> spec_unwrap_or_skip(option) == spec_serializer_from_option(option),
        option is None ==> spec_serializer_from_option(option) == OptionSerializer::<T>::Absent,
{
}

} // verus!
