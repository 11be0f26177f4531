use vstd::prelude::*;
use crate::cell::{lemma_stored, stored, Typed, TypedCell};
use crate::registry::{resource_in, upserted};
use crate::table::TypeKey;

verus! {

/// Adding a resource `v` of type `T` and then reading type `T` yields `v`.
pub proof fn law_resource_round_trip<V, T: Typed<V>>(m: Map<TypeKey, TypedCell<V>>, v: T)
    ensures
        resource_in::<V, T>(m.insert(T::spec_key(), stored::<V, T>(v))) == Some(v),
{
    lemma_stored::<V, T>(v);
}

/// Adding `v1` and then `v2` of the same type leaves `v2`, and only `v2`,
/// readable for that type.
pub proof fn law_resource_overwrite<V, T: Typed<V>>(m: Map<TypeKey, TypedCell<V>>, v1: T, v2: T)
    ensures
        m.insert(T::spec_key(), stored::<V, T>(v1)).insert(T::spec_key(), stored::<V, T>(v2))
            == m.insert(T::spec_key(), stored::<V, T>(v2)),
        resource_in::<V, T>(
            m.insert(T::spec_key(), stored::<V, T>(v1)).insert(T::spec_key(), stored::<V, T>(v2)),
        ) == Some(v2),
{
    lemma_stored::<V, T>(v2);
    assert(m.insert(T::spec_key(), stored::<V, T>(v1)).insert(T::spec_key(), stored::<V, T>(v2))
        =~= m.insert(T::spec_key(), stored::<V, T>(v2)));
}

/// Whatever value of type `T` a cell under `T`'s key is left holding after a
/// mutation is what reading type `T` yields afterwards.
pub proof fn law_resource_mutation_visible<V, T: Typed<V>>(
    m: Map<TypeKey, TypedCell<V>>,
    c: TypedCell<V>,
    x: T,
)
    requires
        c.spec_as::<T>() == Some(x),
    ensures
        resource_in::<V, T>(m.insert(T::spec_key(), c)) == Some(x),
{
}

/// After adding `v` of type `T`, removing type `T` hands back the cell that
/// holds `v`, and type `T` then reads as absent.
pub proof fn law_resource_removal<V, T: Typed<V>>(m: Map<TypeKey, TypedCell<V>>, v: T)
    ensures
        m.insert(T::spec_key(), stored::<V, T>(v))[T::spec_key()].spec_as::<T>() == Some(v),
        resource_in::<V, T>(m.insert(T::spec_key(), stored::<V, T>(v)).remove(T::spec_key()))
            is None,
{
    lemma_stored::<V, T>(v);
}

/// On an empty registry every type reads as absent.
pub proof fn law_absent_before_add<V, T: Typed<V>>()
    ensures
        resource_in::<V, T>(Map::<TypeKey, TypedCell<V>>::empty()) is None,
{
}

/// Registering type `T` and upserting `a` and then `b` leaves `T`'s column
/// holding exactly one cell, which reads as `b`.
pub proof fn law_component_upsert_replace<V, T: Typed<V>>(
    c: Map<TypeKey, Seq<TypedCell<V>>>,
    a: T,
    b: T,
)
    ensures
        ({
            let k = T::spec_key();
            let c0 = c.insert(k, Seq::<TypedCell<V>>::empty());
            let c1 = c0.insert(k, upserted(c0[k], stored::<V, T>(a)));
            let c2 = c1.insert(k, upserted(c1[k], stored::<V, T>(b)));
            &&& c2[k] == seq![stored::<V, T>(b)]
            &&& c2[k][0].spec_as::<T>() == Some(b)
        }),
{
    lemma_stored::<V, T>(b);
    let k = T::spec_key();
    let c0 = c.insert(k, Seq::<TypedCell<V>>::empty());
    let c1 = c0.insert(k, upserted(c0[k], stored::<V, T>(a)));
    let c2 = c1.insert(k, upserted(c1[k], stored::<V, T>(b)));
    assert(c2[k] =~= seq![stored::<V, T>(b)]);
}

/// A cell made from a value of type `A` reads as absent for any type `B`
/// with another key.
pub proof fn law_cross_type_safety<V, A: Typed<V>, B: Typed<V>>(a: A)
    requires
        A::spec_key() != B::spec_key(),
    ensures
        stored::<V, A>(a).spec_as::<B>() is None,
{
    lemma_stored::<V, A>(a);
}

} // verus!
