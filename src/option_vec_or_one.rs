//! A field that may be missing or null, and otherwise holds either one value
//! or an array of values.
pub use crate::vec_or_one::VecOrOne;
use crate::vec_or_one::{decoded_field, encodes, lemma_reencode_stable, result_view, DecodeError};
use vstd::prelude::*;

verus! {

/// Turns a field into its values: `None` (missing or null) stays absent, a
/// present field gives the ordered values of either shape.
pub fn deserialize<T>(field: Option<VecOrOne<T>>) -> (r: Option<Vec<T>>)
    ensures
        field is None <==> r is None,
        field matches Some(shape) ==> r matches Some(v) && v@ == shape.items(),
        option_view(r) == optional_items(field),
{
    match field {
        None => None,
        Some(shape) => Some(crate::vec_or_one::deserialize(shape)),
    }
}

/// Renders an optional sequence: absent becomes `None` (a null node), a
/// present sequence is rendered as the mandatory codec renders it.
pub fn serialize<T>(ov: Option<Vec<T>>) -> (r: Option<VecOrOne<T>>)
    ensures
        ov is None <==> r is None,
        ov matches Some(v) ==> r matches Some(shape) && encodes(shape, v@),
        encodes_optional(r, option_view(ov)),
{
    match ov {
        None => None,
        Some(v) => Some(crate::vec_or_one::serialize(v)),
    }
}

/// A decode result of an optional field with its vector seen as a sequence.
pub open spec fn option_result_view<T, E>(r: Result<Option<Vec<T>>, E>) -> Result<
    Option<Seq<T>>,
    E,
> {
    match r {
        Ok(None) => Ok(None),
        Ok(Some(v)) => Ok(Some(v@)),
        Err(e) => Err(e),
    }
}

/// The outcome of decoding an optional field: missing or null (`None`) is
/// absent, a present field decodes as a mandatory one would.
pub open spec fn decoded_optional_field<T, E>(field: Option<VecOrOne<Result<T, E>>>) -> Result<
    Option<Seq<T>>,
    DecodeError<E>,
> {
    match field {
        None => Ok(None),
        Some(_) => match decoded_field(field) {
            Ok(vs) => Ok(Some(vs)),
            Err(e) => Err(e),
        },
    }
}

/// Decodes an optional field: missing or null gives `Ok(None)`, a present one
/// goes through the mandatory codec, whose error comes back unchanged.
pub fn deserialize_field<T, E>(field: Option<VecOrOne<Result<T, E>>>) -> (r: Result<
    Option<Vec<T>>,
    DecodeError<E>,
>)
    ensures
        option_result_view(r) == decoded_optional_field(field),
{
    match field {
        None => Ok(None),
        Some(shape) => {
            let r = crate::vec_or_one::deserialize_field(Some(shape));
            proof {
                assert(result_view(r) == decoded_field(Some(shape)));
            }
            match r {
                Ok(v) => Ok(Some(v)),
                Err(e) => Err(e),
            }
        },
    }
}

/// An optional vector seen as an optional sequence.
pub open spec fn option_view<T>(ov: Option<Vec<T>>) -> Option<Seq<T>> {
    match ov {
        None => None,
        Some(v) => Some(v@),
    }
}

/// The values of an optional field: `None` when it is missing or null.
pub open spec fn optional_items<T>(field: Option<VecOrOne<T>>) -> Option<Seq<T>> {
    match field {
        None => None,
        Some(shape) => Some(shape.items()),
    }
}

/// `r` is how the optional sequence `o` is rendered.
pub open spec fn encodes_optional<T>(r: Option<VecOrOne<T>>, o: Option<Seq<T>>) -> bool {
    match o {
        None => r is None,
        Some(s) => r matches Some(shape) && encodes(shape, s),
    }
}

/// A missing or null field decodes to absent, and absent is rendered as null.
pub proof fn lemma_absent_is_null<T, E>()
    ensures
        decoded_optional_field(None::<VecOrOne<Result<T, E>>>) == Ok::<
            Option<Seq<T>>,
            DecodeError<E>,
        >(None),
        optional_items(None::<VecOrOne<T>>) is None,
        forall|r: Option<VecOrOne<T>>| encodes_optional(r, None) <==> r is None,
{
}

/// Rendering the decoded value of an optional field and decoding that again
/// gives the same value: absent stays absent, present values stay the same.
pub proof fn lemma_optional_reencode_stable<T>(
    field: Option<VecOrOne<T>>,
    enc: Option<VecOrOne<T>>,
)
    requires
        encodes_optional(enc, optional_items(field)),
    ensures
        optional_items(enc) == optional_items(field),
{
    if let Some(shape) = field {
        lemma_reencode_stable(shape, enc->Some_0);
    }
}

} // verus!
