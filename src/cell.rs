use vstd::prelude::*;
use crate::table::TypeKey;

verus! {

/// A concrete type whose values can be stored erased as payloads of type `V`
/// and recovered from them.
///
/// Each implementing type names itself by a key of its own, distinct from
/// the key of every other type implementing `Typed<V>`; `spec_recover` reads
/// a payload back as a value of the type, and is absent on a payload made
/// from any other type.
pub trait Typed<V>: Sized {
    /// The type's runtime type identifier.
    spec fn spec_key() -> TypeKey;

    /// The payload a value is erased into.
    spec fn spec_erase(x: Self) -> V;

    /// The value of this type that a payload holds, if it holds one.
    spec fn spec_recover(v: V) -> Option<Self>;

    /// Erasing and then recovering gives the value back.
    proof fn lemma_recover_erase(x: Self)
        ensures
            Self::spec_recover(Self::spec_erase(x)) == Some(x),
    ;

    fn key() -> (k: TypeKey)
        ensures
            k == Self::spec_key(),
    ;

    /// Erases a value into a payload.
    fn erase(self) -> (v: V)
        ensures
            v == Self::spec_erase(self),
    ;

    /// Reads a payload as this type, without moving or copying it.
    fn recover_ref(v: &V) -> (r: Option<&Self>)
        ensures
            r is Some <==> Self::spec_recover(*v) is Some,
            r is Some ==> Self::spec_recover(*v) == Some(*r->0),
    ;

    /// Mutable access to a payload as this type; what is written through the
    /// reference is what the payload then holds.
    fn recover_mut(v: &mut V) -> (r: Option<&mut Self>)
        ensures
            r is Some <==> Self::spec_recover(*old(v)) is Some,
            r is Some ==> Self::spec_recover(*old(v)) == Some(*r->0) && Self::spec_recover(
                *final(v),
            ) == Some(*final(r->0)),
            r is None ==> *final(v) == *old(v),
    ;
}

/// A slot holding one value of some concrete type, erased to a payload and
/// tagged with the key of the type it was made from.
pub struct TypedCell<V> {
    key: TypeKey,
    value: V,
}

/// What a cell tagged `key` with payload `v` yields when read as type `T`:
/// the recovered value where the tag is `T`'s key, absent otherwise.
pub open spec fn cell_as<V, T: Typed<V>>(key: TypeKey, v: V) -> Option<T> {
    if key == T::spec_key() {
        T::spec_recover(v)
    } else {
        None
    }
}

/// The cell that storing `value` makes.
pub closed spec fn stored<V, T: Typed<V>>(value: T) -> TypedCell<V> {
    TypedCell { key: T::spec_key(), value: T::spec_erase(value) }
}

/// A stored value is tagged with its type's key and reads back as itself.
pub proof fn lemma_stored<V, T: Typed<V>>(value: T)
    ensures
        stored::<V, T>(value).spec_key() == T::spec_key(),
        stored::<V, T>(value).spec_as::<T>() == Some(value),
{
    T::lemma_recover_erase(value);
}

impl<V> TypedCell<V> {
    /// The key of the type the cell was made from.
    pub closed spec fn spec_key(&self) -> TypeKey {
        self.key
    }

    /// The erased payload.
    pub closed spec fn payload(&self) -> V {
        self.value
    }

    /// What the cell yields when read as type `T`.
    pub open spec fn spec_as<T: Typed<V>>(&self) -> Option<T> {
        cell_as::<V, T>(self.spec_key(), self.payload())
    }

    /// Erases `value` into a new cell tagged with `T`'s key.
    pub fn store<T: Typed<V>>(value: T) -> (c: Self)
        ensures
            c == stored::<V, T>(value),
            c.spec_key() == T::spec_key(),
            c.spec_as::<T>() == Some(value),
    {
        proof {
            lemma_stored::<V, T>(value);
        }
        let key = T::key();
        TypedCell { key, value: value.erase() }
    }

    /// The key of the type the cell was made from.
    pub fn key(&self) -> (k: TypeKey)
        ensures
            k == self.spec_key(),
    {
        self.key
    }

    /// The cell's value as a `T`, or `None` where the cell was not made from
    /// a `T`. The tag is compared before the payload is read.
    pub fn downcast_ref<T: Typed<V>>(&self) -> (r: Option<&T>)
        ensures
            r is Some <==> self.spec_as::<T>() is Some,
            r is Some ==> self.spec_as::<T>() == Some(*r->0),
    {
        if self.key == T::key() {
            T::recover_ref(&self.value)
        } else {
            None
        }
    }

    /// Mutable access to the cell's value as a `T`, or `None` where the cell
    /// was not made from a `T`. The tag never changes.
    pub fn downcast_mut<T: Typed<V>>(&mut self) -> (r: Option<&mut T>)
        ensures
            final(self).spec_key() == old(self).spec_key(),
            r is Some <==> old(self).spec_as::<T>() is Some,
            r is Some ==> old(self).spec_as::<T>() == Some(*r->0) && final(self).spec_as::<T>()
                == Some(*final(r->0)),
            r is None ==> *final(self) == *old(self),
    {
        if self.key == T::key() {
            T::recover_mut(&mut self.value)
        } else {
            None
        }
    }
}

} // verus!
