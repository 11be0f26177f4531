use vstd::prelude::*;
use crate::cell::{stored, Typed, TypedCell};
use crate::table::{TypeKey, TypeTable};

verus! {

/// The resource registry: at most one value per type, each in a cell of its
/// own, under its type's key.
pub struct Resources<V> {
    table: TypeTable<TypedCell<V>>,
}

/// What a map of resource cells yields for type `T`: the value held under
/// `T`'s key, if any.
pub open spec fn resource_in<V, T: Typed<V>>(m: Map<TypeKey, TypedCell<V>>) -> Option<T> {
    if m.contains_key(T::spec_key()) {
        m[T::spec_key()].spec_as::<T>()
    } else {
        None
    }
}

impl<V> View for Resources<V> {
    type V = Map<TypeKey, TypedCell<V>>;

    closed spec fn view(&self) -> Map<TypeKey, TypedCell<V>> {
        self.table@
    }
}

impl<V> Resources<V> {
    /// The registry's invariant: each cell sits under the key it is tagged with.
    pub closed spec fn wf(&self) -> bool {
        &&& self.table.wf()
        &&& forall|k: TypeKey| #[trigger] self.table@.contains_key(k) ==> self.table@[k].spec_key() == k
    }

    /// What the registry yields for type `T`.
    pub open spec fn resource_as<T: Typed<V>>(&self) -> Option<T> {
        resource_in::<V, T>(self@)
    }

    /// An empty registry.
    pub fn new() -> (r: Self)
        ensures
            r.wf(),
            r@ == Map::<TypeKey, TypedCell<V>>::empty(),
    {
        Resources { table: TypeTable::new() }
    }

    /// Stores `resource` as the one value of type `T`, dropping any earlier one.
    pub fn add_resource_2<T: Typed<V>>(&mut self, resource: T)
        requires
            old(self).wf(),
        ensures
            final(self).wf(),
            final(self)@ == old(self)@.insert(T::spec_key(), stored::<V, T>(resource)),
            final(self).resource_as::<T>() == Some(resource),
    {
        let cell = TypedCell::store(resource);
        self.table.insert(cell.key(), cell);
    }

    /// Whether a value of type `T` is stored.
    pub fn has_resource<T: Typed<V>>(&self) -> (r: bool)
        requires
            self.wf(),
        ensures
            r == self@.contains_key(T::spec_key()),
    {
        self.table.contains(T::key())
    }

    /// The stored value of type `T`, if any.
    pub fn get_resource_2<T: Typed<V>>(&self) -> (r: Option<&T>)
        requires
            self.wf(),
        ensures
            r is Some <==> self.resource_as::<T>() is Some,
            r is Some ==> self.resource_as::<T>() == Some(*r->0),
    {
        match self.table.get(T::key()) {
            Some(cell) => cell.downcast_ref::<T>(),
            None => None,
        }
    }

    /// Mutable access to the stored value of type `T`, if any; what is
    /// written through it is what the registry then holds for `T`.
    pub fn get_resource_mut_2<T: Typed<V>>(&mut self) -> (r: Option<&mut T>)
        requires
            old(self).wf(),
        ensures
            final(self).wf(),
            r is Some <==> old(self).resource_as::<T>() is Some,
            r is Some ==> old(self).resource_as::<T>() == Some(*r->0) && final(self).resource_as::<
                T,
            >() == Some(*final(r->0)) && final(self)@ == old(self)@.insert(
                T::spec_key(),
                final(self)@[T::spec_key()],
            ),
            r is None ==> final(self)@ == old(self)@,
    {
        let k = T::key();
        match self.table.get_mut(k) {
            Some(cell) => cell.downcast_mut::<T>(),
            None => None,
        }
    }

    /// Takes out the cell holding the value of type `T`, if any.
    pub fn remove_resource_2<T: Typed<V>>(&mut self) -> (r: Option<TypedCell<V>>)
        requires
            old(self).wf(),
        ensures
            final(self).wf(),
            final(self)@ == old(self)@.remove(T::spec_key()),
            match r {
                Some(c) => old(self)@.contains_key(T::spec_key()) && c == old(self)@[T::spec_key()],
                None => !old(self)@.contains_key(T::spec_key()),
            },
    {
        self.table.remove(T::key())
    }
}

/// The sequence a component column holds after `c` is upserted into `s`:
/// `c` replaces the last element, or becomes the only one if `s` is empty.
pub open spec fn upserted<C>(s: Seq<C>, c: C) -> Seq<C> {
    if s.len() == 0 {
        seq![c]
    } else {
        s.update(s.len() - 1, c)
    }
}

/// The component registry: for each registered type, an ordered column of
/// cells holding values of that type.
pub struct Components<V> {
    table: TypeTable<Vec<TypedCell<V>>>,
}

impl<V> View for Components<V> {
    type V = Map<TypeKey, Seq<TypedCell<V>>>;

    closed spec fn view(&self) -> Map<TypeKey, Seq<TypedCell<V>>> {
        columns_of(self.table@)
    }
}

/// The cells of each column of a table, as sequences.
pub open spec fn columns_of<V>(m: Map<TypeKey, Vec<TypedCell<V>>>) -> Map<TypeKey, Seq<TypedCell<V>>> {
    m.map_values(|c: Vec<TypedCell<V>>| c@)
}

impl<V> Components<V> {
    /// The registry's invariant: every cell of a column is tagged with the
    /// column's key.
    pub closed spec fn wf(&self) -> bool {
        &&& self.table.wf()
        &&& forall|k: TypeKey, i: int|
            #[trigger] self.table@.contains_key(k) && 0 <= i < self.table@[k]@.len()
                ==> #[trigger] self.table@[k]@[i].spec_key() == k
    }

    /// An empty registry.
    pub fn new() -> (r: Self)
        ensures
            r.wf(),
            r@ == Map::<TypeKey, Seq<TypedCell<V>>>::empty(),
    {
        let r = Components { table: TypeTable::new() };
        assert(r@ =~= Map::<TypeKey, Seq<TypedCell<V>>>::empty());
        r
    }

    /// Creates an empty column for type `T`, discarding any column it had.
    pub fn register<T: Typed<V>>(&mut self)
        requires
            old(self).wf(),
        ensures
            final(self).wf(),
            final(self)@ == old(self)@.insert(T::spec_key(), Seq::<TypedCell<V>>::empty()),
    {
        self.table.insert(T::key(), Vec::new());
        assert(self@ =~= old(self)@.insert(T::spec_key(), Seq::<TypedCell<V>>::empty()));
    }

    /// Whether type `T` has a column.
    pub fn is_registered<T: Typed<V>>(&self) -> (r: bool)
        requires
            self.wf(),
        ensures
            r == self@.contains_key(T::spec_key()),
    {
        self.table.contains(T::key())
    }

    /// Puts `value` in a fresh cell at the end of `T`'s column: it replaces
    /// the last cell, or becomes the first one of an empty column.
    pub fn upsert_last<T: Typed<V>>(&mut self, value: T)
        requires
            old(self).wf(),
            old(self)@.contains_key(T::spec_key()),
        ensures
            final(self).wf(),
            final(self)@ == old(self)@.insert(
                T::spec_key(),
                upserted(old(self)@[T::spec_key()], stored::<V, T>(value)),
            ),
            final(self)@[T::spec_key()].last().spec_as::<T>() == Some(value),
    {
        let k = T::key();
        let cell = TypedCell::store(value);
        match self.table.get_mut(k) {
            Some(column) => {
                let n = column.len();
                if n > 0 {
                    column.set(n - 1, cell);
                } else {
                    column.push(cell);
                }
            },
            None => {},
        }
        proof {
            let s = old(self)@[k];
            let t = self.table@[k]@;
            assert(t =~= upserted(s, stored::<V, T>(value)));
            assert(self@ =~= old(self)@.insert(k, upserted(s, stored::<V, T>(value))));
        }
    }

    /// The number of cells in `T`'s column.
    pub fn column_len<T: Typed<V>>(&self) -> (r: usize)
        requires
            self.wf(),
            self@.contains_key(T::spec_key()),
        ensures
            r == self@[T::spec_key()].len(),
    {
        match self.table.get(T::key()) {
            Some(column) => column.len(),
            None => 0,
        }
    }

    /// The value of the cell at `index` of `T`'s column, if the column has
    /// such a cell.
    pub fn component<T: Typed<V>>(&self, index: usize) -> (r: Option<&T>)
        requires
            self.wf(),
            self@.contains_key(T::spec_key()),
        ensures
            index >= self@[T::spec_key()].len() ==> r is None,
            index < self@[T::spec_key()].len() ==> {
                &&& r is Some <==> self@[T::spec_key()][index as int].spec_as::<T>() is Some
                &&& r is Some ==> self@[T::spec_key()][index as int].spec_as::<T>() == Some(*r->0)
            },
    {
        match self.table.get(T::key()) {
            Some(column) => {
                if index < column.len() {
                    column[index].downcast_ref::<T>()
                } else {
                    None
                }
            },
            None => None,
        }
    }

    /// Mutable access to the value of the cell at `index` of `T`'s column;
    /// what is written through it is what that cell then holds.
    pub fn component_mut<T: Typed<V>>(&mut self, index: usize) -> (r: Option<&mut T>)
        requires
            old(self).wf(),
            old(self)@.contains_key(T::spec_key()),
        ensures
            final(self).wf(),
            index >= old(self)@[T::spec_key()].len() ==> r is None,
            index < old(self)@[T::spec_key()].len() ==> {
                &&& r is Some <==> old(self)@[T::spec_key()][index as int].spec_as::<T>() is Some
                &&& r is Some ==> old(self)@[T::spec_key()][index as int].spec_as::<T>() == Some(
                    *r->0,
                )
            },
            r is Some ==> final(self)@ == old(self)@.insert(
                T::spec_key(),
                old(self)@[T::spec_key()].update(
                    index as int,
                    final(self)@[T::spec_key()][index as int],
                ),
            ) && final(self)@[T::spec_key()][index as int].spec_as::<T>() == Some(*final(r->0)),
            r is None ==> final(self)@ == old(self)@,
    {
        if index >= self.column_len::<T>() {
            return None;
        }
        let k = T::key();
        proof {
            let m = self.table@;
            let s = m[k]@;
            assert forall|col: Vec<TypedCell<V>>| col@ == s.update(index as int, s[index as int])
                implies #[trigger] columns_of(m.insert(k, col)) == columns_of(m) by {
                assert(col@ =~= s);
                assert(columns_of(m.insert(k, col)) =~= columns_of(m));
            }
        }
        match self.table.get_mut(k) {
            Some(column) => column[index].downcast_mut::<T>(),
            None => None,
        }
    }
}

} // verus!
