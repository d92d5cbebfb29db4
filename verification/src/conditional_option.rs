use vstd::prelude::*;
use vstd::std_specs::convert::FromSpecImpl;

verus! {

/// A value that is present, absent (written as null or as the default), or to
/// be left out of the serialized output altogether.
#[derive(Clone, Debug, PartialEq)]
pub enum ConditionalOption<T: Default> {
    Present(T),
    Absent,
    Skip,
}

/// The error of serializing a value that was marked to be left out.
#[derive(Clone, Copy, Debug, PartialEq, Eq, Structural)]
pub struct SkipVariantError;

impl SkipVariantError {
    /// The error's message.
    pub fn message(&self) -> (r: &'static str)
        ensures
            r@ == "Skip variants should not be serialized"@,
    {
        "Skip variants should not be serialized"
    }
}

/// The conditional option holding what `option` holds, absent when it is absent.
pub open spec fn spec_from_option<T: Default>(option: Option<T>) -> ConditionalOption<T> {
    match option {
        Option::Some(item) => ConditionalOption::Present(item),
        Option::None => ConditionalOption::Absent,
    }
}

/// The conditional option holding what `option` holds, to be left out when
/// it is absent.
pub open spec fn spec_or_skip<T: Default>(option: Option<T>) -> ConditionalOption<T> {
    match option {
        Option::Some(item) => ConditionalOption::Present(item),
        Option::None => ConditionalOption::Skip,
    }
}

impl<T: Default> Default for ConditionalOption<T> {
    /// The absent value.
    fn default() -> (r: ConditionalOption<T>)
        ensures
            r == ConditionalOption::<T>::Absent,
    {
        ConditionalOption::Absent
    }
}

impl<T: Default> ConditionalOption<T> {
    /// Whether the value is to be left out of the output.
    pub fn should_skip(&self) -> (r: bool)
        ensures
            r == (*self is Skip),
    {
        match self {
            ConditionalOption::Skip => true,
            _ => false,
        }
    }

    /// The value held by `option`, or one to be left out when there is none.
    pub fn or_skip(option: Option<T>) -> (r: ConditionalOption<T>)
        ensures
            r == spec_or_skip(option),
    {
        match option {
            Option::Some(item) => ConditionalOption::Present(item),
            Option::None => ConditionalOption::Skip,
        }
    }

    /// What serializing the value writes: the held item, nothing (the writer
    /// then puts the default or null), or an error for a value marked to be
    /// left out.
    pub fn serialized_item(&self) -> (r: Result<Option<&T>, SkipVariantError>)
        ensures
            match *self {
                ConditionalOption::Present(item) => r == Ok::<Option<&T>, SkipVariantError>(Some(&item)),
                ConditionalOption::Absent => r == Ok::<Option<&T>, SkipVariantError>(None),
                ConditionalOption::Skip => r == Err::<Option<&T>, SkipVariantError>(SkipVariantError),
            },
    {
        match self {
            ConditionalOption::Present(item) => Ok(Some(item)),
            ConditionalOption::Absent => Ok(None),
            ConditionalOption::Skip => Err(SkipVariantError),
        }
    }
}

impl<T: Default> From<Option<T>> for ConditionalOption<T> {
    /// The value held by `option`, absent when there is none.
    fn from(option: Option<T>) -> (r: ConditionalOption<T>) {
        match option {
            Option::Some(item) => ConditionalOption::Present(item),
            Option::None => ConditionalOption::Absent,
        }
    }
}

impl<T: Default> FromSpecImpl<Option<T>> for ConditionalOption<T> {
    open spec fn obeys_from_spec() -> bool {
        true
    }

    open spec fn from_spec(v: Option<T>) -> ConditionalOption<T> {
        spec_from_option(v)
    }
}

/// Converting an absent option gives the absent value, while `or_skip` marks
/// it to be left out; for a present option both hold the same item, and only
/// `or_skip` of an absent option is ever left out.
pub proof fn law_from_and_or_skip<T: Default>(option: Option<T>)
    ensures
        option is Some ==> spec_from_option(option) == spec_or_skip(option),
        option is None ==> spec_from_option(option) == ConditionalOption::<T>::Absent,
        option is None ==> spec_or_skip(option) == ConditionalOption::<T>::Skip,
        (spec_or_skip(option) is Skip) == (option is None),
        !(spec_from_option(option) is Skip),
{
}

} // verus!
