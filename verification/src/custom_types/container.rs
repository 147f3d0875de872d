//! Containers whose values can be mapped to another type, the container keeping its
//! kind.

use vstd::prelude::*;

verus! {

/// Something that holds values of type `T` in an order.
pub trait Holder<T> {
    /// The values held, in their order.
    spec fn items(&self) -> Seq<T>;
}

/// A container that has a counterpart of the same kind for values of type `U`.
pub trait Remap<U> {
    /// The container of the same kind that holds values of type `U`.
    type Mapped: Holder<U>;
}

/// A container of values of one type.
pub trait Container: Sized {
    /// The type of the values held.
    type Item;

    /// The values held, in their order.
    spec fn held(&self) -> Seq<Self::Item>;

    /// Applies `f` to each value held, in order, and holds the results in a container
    /// of the same kind.
    fn map<U, F: FnMut(&Self::Item) -> U>(self, f: F) -> (mapped: <Self as Remap<U>>::Mapped) where
        Self: Remap<U>,

        requires
            forall|i: int|
                0 <= i < self.held().len() ==> f.requires((&#[trigger] self.held()[i],)),
        ensures
            mapped.items().len() == self.held().len(),
            forall|i: int|
                0 <= i < self.held().len() ==> f.ensures(
                    (&self.held()[i],),
                    #[trigger] mapped.items()[i],
                ),
    ;
}

impl<T> Holder<T> for Option<T> {
    open spec fn items(&self) -> Seq<T> {
        match *self {
            Some(value) => seq![value],
            None => Seq::empty(),
        }
    }
}

impl<T, U> Remap<U> for Option<T> {
    type Mapped = Option<U>;
}

impl<T> Container for Option<T> {
    type Item = T;

    open spec fn held(&self) -> Seq<T> {
        self.items()
    }

    fn map<U, F: FnMut(&T) -> U>(self, f: F) -> (mapped: <Option<T> as Remap<U>>::Mapped) {
        let mut f = f;
        match self {
            Some(value) => {
                assert(self.held()[0] == value);
                let image = f(&value);
                let mapped = Some(image);
                assert(mapped.items()[0] == image);
                mapped
            },
            None => None,
        }
    }
}

impl<T, E> Holder<T> for Result<T, E> {
    open spec fn items(&self) -> Seq<T> {
        match *self {
            Ok(value) => seq![value],
            Err(_) => Seq::empty(),
        }
    }
}

impl<T, E, U> Remap<U> for Result<T, E> {
    type Mapped = Result<U, E>;
}

impl<T, E> Container for Result<T, E> {
    type Item = T;

    open spec fn held(&self) -> Seq<T> {
        self.items()
    }

    fn map<U, F: FnMut(&T) -> U>(self, f: F) -> (mapped: <Result<T, E> as Remap<U>>::Mapped) {
        let mut f = f;
        match self {
            Ok(value) => {
                assert(self.held()[0] == value);
                let image = f(&value);
                let mapped = Ok(image);
                assert(mapped.items()[0] == image);
                mapped
            },
            Err(error) => Err(error),
        }
    }
}

} // verus!
