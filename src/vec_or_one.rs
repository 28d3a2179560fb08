//! A field that holds either one value or an array of values.
use vstd::prelude::*;

verus! {

/// The shape of a present field once its elements are decoded: an array of
/// members, or one bare (scalar-shaped) value.
pub enum VecOrOne<T> {
    Vec(Vec<T>),
    One(T),
}

impl<T> VecOrOne<T> {
    /// The ordered values that the field carries.
    pub open spec fn items(self) -> Seq<T> {
        match self {
            VecOrOne::Vec(v) => v@,
            VecOrOne::One(t) => seq![t],
        }
    }
}

/// `r` is how the sequence `s` is rendered: one element collapses to a bare
/// value, any other length (zero included) stays an array, in order.
pub open spec fn encodes<T>(r: VecOrOne<T>, s: Seq<T>) -> bool {
    if s.len() == 1 {
        r == VecOrOne::One(s[0])
    } else {
        r matches VecOrOne::Vec(v) && v@ == s
    }
}

/// Turns either shape into the ordered sequence of its values.
pub fn deserialize<T>(shape: VecOrOne<T>) -> (r: Vec<T>)
    ensures
        r@ == shape.items(),
{
    match shape {
        VecOrOne::Vec(v) => v,
        VecOrOne::One(t) => {
            let mut v: Vec<T> = Vec::new();
            v.push(t);
            v
        },
    }
}

/// Renders a sequence: a bare value when it has exactly one element, an
/// array of all its elements otherwise.
pub fn serialize<T>(mut v: Vec<T>) -> (r: VecOrOne<T>)
    ensures
        encodes(r, v@),
{
    if v.len() == 1 {
        let t = v.remove(0);
        VecOrOne::One(t)
    } else {
        VecOrOne::Vec(v)
    }
}

/// Why a field could not be decoded.
pub enum DecodeError<E> {
    /// The field is mandatory and was not there.
    MissingField,
    /// An element failed to decode; its own error is kept as it came.
    Element(E),
}

/// The outcome of decoding the members in order: all their values, or the
/// error of the first member that failed.
pub open spec fn decoded_members<T, E>(s: Seq<Result<T, E>>) -> Result<Seq<T>, E>
    decreases s.len(),
{
    if s.len() == 0 {
        Ok(Seq::empty())
    } else {
        match decoded_members(s.drop_last()) {
            Err(e) => Err(e),
            Ok(vs) => match s.last() {
                Ok(t) => Ok(vs.push(t)),
                Err(e) => Err(e),
            },
        }
    }
}

/// The outcome of decoding a mandatory field, absent (`None`) or present.
pub open spec fn decoded_field<T, E>(field: Option<VecOrOne<Result<T, E>>>) -> Result<
    Seq<T>,
    DecodeError<E>,
> {
    match field {
        None => Err(DecodeError::MissingField),
        Some(shape) => match decoded_members(shape.items()) {
            Ok(vs) => Ok(vs),
            Err(e) => Err(DecodeError::Element(e)),
        },
    }
}

/// A decode result with its vector seen as a sequence.
pub open spec fn result_view<T, E>(r: Result<Vec<T>, E>) -> Result<Seq<T>, E> {
    match r {
        Ok(v) => Ok(v@),
        Err(e) => Err(e),
    }
}

/// Collects the members' decode results in order, stopping at the first
/// failure.
pub fn collect_members<T, E>(members: Vec<Result<T, E>>) -> (r: Result<Vec<T>, E>)
    ensures
        result_view(r) == decoded_members(members@),
{
    let ghost all = members@;
    let mut out: Vec<T> = Vec::new();
    for m in it: members.into_iter()
        invariant
            it.seq() == all,
            decoded_members(all.take(it.index() as int)) == Ok::<Seq<T>, E>(out@),
    {
        let ghost i = it.index() as int;
        assert(all.take(i + 1).drop_last() == all.take(i));
        match m {
            Ok(t) => out.push(t),
            Err(e) => {
                proof {
                    lemma_failure_persists(all, i + 1);
                }
                return Err(e);
            },
        }
    }
    assert(all.take(all.len() as int) == all);
    Ok(out)
}

/// Once a prefix fails to decode, every longer prefix fails with the same
/// error.
proof fn lemma_failure_persists<T, E>(s: Seq<Result<T, E>>, k: int)
    requires
        0 <= k <= s.len(),
        decoded_members(s.take(k)) is Err,
    ensures
        decoded_members(s) == decoded_members(s.take(k)),
    decreases s.len() - k,
{
    if k < s.len() {
        assert(s.take(k + 1).drop_last() == s.take(k));
        lemma_failure_persists(s, k + 1);
    } else {
        assert(s.take(k) == s);
    }
}

/// Decodes a mandatory field: a missing one is an error, a present one
/// gives its members' values in order, or the first member's failure.
pub fn deserialize_field<T, E>(field: Option<VecOrOne<Result<T, E>>>) -> (r: Result<
    Vec<T>,
    DecodeError<E>,
>)
    ensures
        result_view(r) == decoded_field(field),
{
    match field {
        None => Err(DecodeError::MissingField),
        Some(shape) => match collect_members(deserialize(shape)) {
            Ok(v) => Ok(v),
            Err(e) => Err(DecodeError::Element(e)),
        },
    }
}

/// A scalar-shaped field whose value decodes to `v` decodes to `[v]`.
pub proof fn lemma_scalar_coerces<T, E>(v: T)
    ensures
        decoded_field(Some(VecOrOne::One(Ok::<T, E>(v)))) == Ok::<Seq<T>, DecodeError<E>>(
            seq![v],
        ),
{
    let s = seq![Ok::<T, E>(v)];
    assert(s.drop_last() == Seq::<Result<T, E>>::empty());
    assert(decoded_members(s.drop_last()) == Ok::<Seq<T>, E>(Seq::empty()));
    assert(decoded_members(s) == Ok::<Seq<T>, E>(Seq::<T>::empty().push(v)));
    assert(Seq::<T>::empty().push(v) == seq![v]);
}

/// An array whose members all decode gives their values, in the same order.
pub proof fn lemma_array_passes_through<T, E>(members: Vec<Result<T, E>>)
    requires
        forall|i: int| 0 <= i < members@.len() ==> (#[trigger] members@[i]) is Ok,
    ensures
        decoded_field(Some(VecOrOne::Vec(members))) == Ok::<Seq<T>, DecodeError<E>>(
            members@.map_values(|m: Result<T, E>| m->Ok_0),
        ),
{
    lemma_all_ok_members(members@);
}

proof fn lemma_all_ok_members<T, E>(s: Seq<Result<T, E>>)
    requires
        forall|i: int| 0 <= i < s.len() ==> (#[trigger] s[i]) is Ok,
    ensures
        decoded_members(s) == Ok::<Seq<T>, E>(s.map_values(|m: Result<T, E>| m->Ok_0)),
    decreases s.len(),
{
    if s.len() > 0 {
        let p = s.drop_last();
        assert forall|i: int| 0 <= i < p.len() implies (#[trigger] p[i]) is Ok by {
            assert(p[i] == s[i]);
        }
        lemma_all_ok_members(p);
        assert(s[s.len() - 1] is Ok);
        assert(s.map_values(|m: Result<T, E>| m->Ok_0) == p.map_values(
            |m: Result<T, E>| m->Ok_0,
        ).push(s.last()->Ok_0));
    } else {
        assert(s.map_values(|m: Result<T, E>| m->Ok_0) == Seq::<T>::empty());
    }
}

/// A missing mandatory field is an error, and no other kind of error.
pub proof fn lemma_missing_field_fails<T, E>()
    ensures
        decoded_field(None::<VecOrOne<Result<T, E>>>) == Err::<Seq<T>, DecodeError<E>>(
            DecodeError::MissingField,
        ),
{
}

/// A one-element sequence is rendered as a bare value, whether it was
/// decoded from a bare value or from a one-element array.
pub proof fn lemma_single_collapses<T>(node: VecOrOne<T>, enc: VecOrOne<T>)
    requires
        node.items().len() == 1,
        encodes(enc, node.items()),
    ensures
        enc is One,
        enc == VecOrOne::One(node.items()[0]),
        node matches VecOrOne::Vec(v) ==> enc == VecOrOne::One(v@[0]),
{
}

/// Any other length, zero included, is rendered as an array with exactly
/// those elements, in order.
pub proof fn lemma_array_kept<T>(s: Seq<T>, enc: VecOrOne<T>)
    requires
        s.len() != 1,
        encodes(enc, s),
    ensures
        enc matches VecOrOne::Vec(v) && v@.len() == s.len() && forall|i: int|
            0 <= i < s.len() ==> v@[i] == s[i],
{
}

/// Rendering the values of a field and decoding that again gives the same
/// values, though the rendered shape may differ from the original one.
pub proof fn lemma_reencode_stable<T>(node: VecOrOne<T>, enc: VecOrOne<T>)
    requires
        encodes(enc, node.items()),
    ensures
        enc.items() == node.items(),
{
    if node.items().len() == 1 {
        assert(enc.items() == seq![node.items()[0]]);
        assert(node.items() == seq![node.items()[0]]);
    }
}

} // verus!
