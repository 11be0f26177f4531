use vstd::prelude::*;
use crate::cell::{stored, Typed, TypedCell};
use crate::registry::{resource_in, upserted, Components, Resources};
use crate::table::TypeKey;

verus! {

/// The store: one resource registry, a second one reached through the
/// `_2` operations, and one component registry. Every operation goes to
/// exactly one of them and leaves the others as they were.
pub struct World<V> {
    components: Components<V>,
    resources: Resources<V>,
    more_resources: Resources<V>,
}

impl<V> World<V> {
    /// The store's invariant: each registry keeps its own.
    pub closed spec fn wf(&self) -> bool {
        &&& self.components.wf()
        &&& self.resources.wf()
        &&& self.more_resources.wf()
    }

    /// The resource cells, by type key.
    pub closed spec fn resources(&self) -> Map<TypeKey, TypedCell<V>> {
        self.resources@
    }

    /// The cells of the second resource registry, by type key.
    pub closed spec fn more_resources(&self) -> Map<TypeKey, TypedCell<V>> {
        self.more_resources@
    }

    /// The component columns, by type key.
    pub closed spec fn components(&self) -> Map<TypeKey, Seq<TypedCell<V>>> {
        self.components@
    }

    /// What `get_resource::<T>()` yields.
    pub open spec fn resource_as<T: Typed<V>>(&self) -> Option<T> {
        resource_in::<V, T>(self.resources())
    }

    /// What `get_resource_2::<T>()` yields.
    pub open spec fn more_resource_as<T: Typed<V>>(&self) -> Option<T> {
        resource_in::<V, T>(self.more_resources())
    }

    /// An empty store.
    pub fn new() -> (w: Self)
        ensures
            w.wf(),
            w.resources() == Map::<TypeKey, TypedCell<V>>::empty(),
            w.more_resources() == Map::<TypeKey, TypedCell<V>>::empty(),
            w.components() == Map::<TypeKey, Seq<TypedCell<V>>>::empty(),
    {
        World { components: Components::new(), resources: Resources::new(), more_resources: Resources::new() }
    }

    /// Stores `resource` as the one resource of type `T`, dropping any
    /// earlier one.
    pub fn add_resource<T: Typed<V>>(&mut self, resource: T)
        requires
            old(self).wf(),
        ensures
            final(self).wf(),
            final(self).resources() == old(self).resources().insert(
                T::spec_key(),
                stored::<V, T>(resource),
            ),
            final(self).resource_as::<T>() == Some(resource),
            final(self).more_resources() == old(self).more_resources(),
            final(self).components() == old(self).components(),
    {
        self.resources.add_resource_2(resource);
    }

    /// Whether a resource of type `T` is stored.
    pub fn has_resource<T: Typed<V>>(&self) -> (r: bool)
        requires
            self.wf(),
        ensures
            r == self.resources().contains_key(T::spec_key()),
    {
        self.resources.has_resource::<T>()
    }

    /// The resource of type `T`, if one is stored.
    pub fn get_resource<T: Typed<V>>(&self) -> (r: Option<&T>)
        requires
            self.wf(),
        ensures
            r is Some <==> self.resource_as::<T>() is Some,
            r is Some ==> self.resource_as::<T>() == Some(*r->0),
    {
        self.resources.get_resource_2::<T>()
    }

    /// Mutable access to the resource of type `T`, if one is stored; what is
    /// written through it is what `get_resource::<T>()` yields afterwards.
    pub fn get_resource_mut<T: Typed<V>>(&mut self) -> (r: Option<&mut T>)
        requires
            old(self).wf(),
        ensures
            final(self).wf(),
            r is Some <==> old(self).resource_as::<T>() is Some,
            r is Some ==> old(self).resource_as::<T>() == Some(*r->0) && final(self).resource_as::<
                T,
            >() == Some(*final(r->0)) && final(self).resources() == old(self).resources().insert(
                T::spec_key(),
                final(self).resources()[T::spec_key()],
            ),
            r is None ==> final(self).resources() == old(self).resources(),
            final(self).more_resources() == old(self).more_resources(),
            final(self).components() == old(self).components(),
    {
        self.resources.get_resource_mut_2::<T>()
    }

    /// Creates an empty component column for type `T`, discarding any
    /// column it had.
    pub fn register_component<T: Typed<V>>(&mut self)
        requires
            old(self).wf(),
        ensures
            final(self).wf(),
            final(self).components() == old(self).components().insert(
                T::spec_key(),
                Seq::<TypedCell<V>>::empty(),
            ),
            final(self).resources() == old(self).resources(),
            final(self).more_resources() == old(self).more_resources(),
    {
        self.components.register::<T>();
    }

    /// Whether type `T` has a component column.
    pub fn is_registered<T: Typed<V>>(&self) -> (r: bool)
        requires
            self.wf(),
        ensures
            r == self.components().contains_key(T::spec_key()),
    {
        self.components.is_registered::<T>()
    }

    /// Puts `component` in a fresh cell at the end of its type's column,
    /// replacing the last cell if there is one, and hands the store back for
    /// further calls. The type must have been registered.
    pub fn with_component<T: Typed<V>>(&mut self, component: T) -> (r: &mut Self)
        requires
            old(self).wf(),
            old(self).components().contains_key(T::spec_key()),
        ensures
            r.wf(),
            r.components() == old(self).components().insert(
                T::spec_key(),
                upserted(old(self).components()[T::spec_key()], stored::<V, T>(component)),
            ),
            r.resources() == old(self).resources(),
            r.more_resources() == old(self).more_resources(),
            *final(self) == *final(r),
    {
        self.components.upsert_last(component);
        self
    }

    /// The number of cells in `T`'s column. The type must have been
    /// registered.
    pub fn component_count<T: Typed<V>>(&self) -> (r: usize)
        requires
            self.wf(),
            self.components().contains_key(T::spec_key()),
        ensures
            r == self.components()[T::spec_key()].len(),
    {
        self.components.column_len::<T>()
    }

    /// The component at `index` of `T`'s column, if there is one. The type
    /// must have been registered.
    pub fn get_component<T: Typed<V>>(&self, index: usize) -> (r: Option<&T>)
        requires
            self.wf(),
            self.components().contains_key(T::spec_key()),
        ensures
            index >= self.components()[T::spec_key()].len() ==> r is None,
            index < self.components()[T::spec_key()].len() ==> {
                &&& r is Some <==> self.components()[T::spec_key()][index as int].spec_as::<T>() is Some
                &&& r is Some ==> self.components()[T::spec_key()][index as int].spec_as::<T>()
                    == Some(*r->0)
            },
    {
        self.components.component::<T>(index)
    }

    /// Mutable access to the component at `index` of `T`'s column, if there
    /// is one; what is written through it is what that cell then holds. The
    /// type must have been registered.
    pub fn get_component_mut<T: Typed<V>>(&mut self, index: usize) -> (r: Option<&mut T>)
        requires
            old(self).wf(),
            old(self).components().contains_key(T::spec_key()),
        ensures
            final(self).wf(),
            index >= old(self).components()[T::spec_key()].len() ==> r is None,
            index < old(self).components()[T::spec_key()].len() ==> {
                &&& r is Some <==> old(self).components()[T::spec_key()][index as int].spec_as::<
                    T,
                >() is Some
                &&& r is Some ==> old(self).components()[T::spec_key()][index as int].spec_as::<
                    T,
                >() == Some(*r->0)
            },
            r is Some ==> final(self).components() == old(self).components().insert(
                T::spec_key(),
                old(self).components()[T::spec_key()].update(
                    index as int,
                    final(self).components()[T::spec_key()][index as int],
                ),
            ) && final(self).components()[T::spec_key()][index as int].spec_as::<T>() == Some(
                *final(r->0),
            ),
            r is None ==> final(self).components() == old(self).components(),
            final(self).resources() == old(self).resources(),
            final(self).more_resources() == old(self).more_resources(),
    {
        self.components.component_mut::<T>(index)
    }

    /// Takes out the cell holding the resource of type `T`, if one is stored.
    pub fn remove_resource<T: Typed<V>>(&mut self) -> (r: Option<TypedCell<V>>)
        requires
            old(self).wf(),
        ensures
            final(self).wf(),
            final(self).resources() == old(self).resources().remove(T::spec_key()),
            match r {
                Some(c) => old(self).resources().contains_key(T::spec_key()) && c == old(
                    self,
                ).resources()[T::spec_key()],
                None => !old(self).resources().contains_key(T::spec_key()),
            },
            final(self).more_resources() == old(self).more_resources(),
            final(self).components() == old(self).components(),
    {
        self.resources.remove_resource_2::<T>()
    }

    /// Stores `resource` in the second resource registry.
    pub fn add_resource_2<T: Typed<V>>(&mut self, resource: T)
        requires
            old(self).wf(),
        ensures
            final(self).wf(),
            final(self).more_resources() == old(self).more_resources().insert(
                T::spec_key(),
                stored::<V, T>(resource),
            ),
            final(self).more_resource_as::<T>() == Some(resource),
            final(self).resources() == old(self).resources(),
            final(self).components() == old(self).components(),
    {
        self.more_resources.add_resource_2(resource);
    }

    /// The resource of type `T` in the second resource registry, if any.
    pub fn get_resource_2<T: Typed<V>>(&self) -> (r: Option<&T>)
        requires
            self.wf(),
        ensures
            r is Some <==> self.more_resource_as::<T>() is Some,
            r is Some ==> self.more_resource_as::<T>() == Some(*r->0),
    {
        self.more_resources.get_resource_2::<T>()
    }

    /// Mutable access to the resource of type `T` in the second resource
    /// registry, if any.
    pub fn get_resource_mut_2<T: Typed<V>>(&mut self) -> (r: Option<&mut T>)
        requires
            old(self).wf(),
        ensures
            final(self).wf(),
            r is Some <==> old(self).more_resource_as::<T>() is Some,
            r is Some ==> old(self).more_resource_as::<T>() == Some(*r->0)
                && final(self).more_resource_as::<T>() == Some(*final(r->0))
                && final(self).more_resources() == old(self).more_resources().insert(
                T::spec_key(),
                final(self).more_resources()[T::spec_key()],
            ),
            r is None ==> final(self).more_resources() == old(self).more_resources(),
            final(self).resources() == old(self).resources(),
            final(self).components() == old(self).components(),
    {
        self.more_resources.get_resource_mut_2::<T>()
    }
}

impl<V> Default for World<V> {
    /// An empty store.
    fn default() -> (w: Self)
        ensures
            w.wf(),
            w.resources() == Map::<TypeKey, TypedCell<V>>::empty(),
            w.more_resources() == Map::<TypeKey, TypedCell<V>>::empty(),
            w.components() == Map::<TypeKey, Seq<TypedCell<V>>>::empty(),
    {
        World::new()
    }
}

} // verus!
