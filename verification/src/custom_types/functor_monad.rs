//! Functor, applicative and monad over the containers that hold at most one value:
//! `Option`, and `Result` with its error left alone.

use crate::custom_types::decimal::signed_decimal_string;
use crate::custom_types::decimal::signed_decimal_text;
use vstd::prelude::*;
use vstd::string::StringExecFns;

verus! {

/// A container of at most one value of type `T`.
pub trait HKT<T>: Sized {
    /// The value that the container holds, if it holds one.
    spec fn content(&self) -> Option<T>;
}

/// A container that has a counterpart of the same kind for values of type `U`.
pub trait Rebind<U> {
    /// The container of the same kind that holds a `U`.
    type Higher: HKT<U>;
}

/// A container whose value can be mapped.
pub trait Functor<T>: HKT<T> {
    /// Applies `f` to the value held and holds the result; holds nothing where
    /// nothing was held.
    fn fmap<U, F>(self, f: F) -> (mapped: <Self as Rebind<U>>::Higher) where
        Self: Rebind<U>,
        F: FnOnce(T) -> U,

        requires
            self.content() matches Some(value) ==> f.requires((value,)),
        ensures
            match self.content() {
                Some(value) => mapped.content() matches Some(image) && f.ensures(
                    (value,),
                    image,
                ),
                None => mapped.content() is None,
            },
    ;
}

/// A functor that can hold a given value, and apply a held function to a held value.
pub trait Applicative<T>: Functor<T> {
    /// The container that holds `value`.
    fn pure(value: T) -> (held: Self)
        ensures
            held.content() == Some(value),
    ;

    /// Applies the function held by `f` to the value held and holds the result;
    /// holds nothing where either is missing.
    fn apply<U, F>(self, f: <Self as Rebind<F>>::Higher) -> (applied: <Self as Rebind<
        U,
    >>::Higher) where Self: Rebind<U> + Rebind<F>, F: FnOnce(T) -> U
        requires
            self.content() matches Some(value) ==> (f.content() matches Some(function)
                ==> function.requires((value,))),
        ensures
            match (self.content(), f.content()) {
                (Some(value), Some(function)) => applied.content() matches Some(image)
                    && function.ensures((value,), image),
                _ => applied.content() is None,
            },
    ;
}

/// An applicative whose value can be handed to a function that returns a container.
pub trait Monad<T>: Applicative<T> {
    /// Hands the value held to `f` and returns what `f` returns; holds nothing where
    /// nothing was held.
    fn bind<U, F>(self, f: F) -> (bound: <Self as Rebind<U>>::Higher) where
        Self: Rebind<U>,
        F: FnOnce(T) -> <Self as Rebind<U>>::Higher,

        requires
            self.content() matches Some(value) ==> f.requires((value,)),
        ensures
            match self.content() {
                Some(value) => f.ensures((value,), bound),
                None => bound.content() is None,
            },
    ;
}

impl<T> HKT<T> for Option<T> {
    open spec fn content(&self) -> Option<T> {
        *self
    }
}

impl<T, U> Rebind<U> for Option<T> {
    type Higher = Option<U>;
}

impl<T> Functor<T> for Option<T> {
    fn fmap<U, F>(self, f: F) -> (mapped: <Option<T> as Rebind<U>>::Higher) where
        F: FnOnce(T) -> U,
     {
        match self {
            Some(value) => Some(f(value)),
            None => None,
        }
    }
}

impl<T> Applicative<T> for Option<T> {
    fn pure(value: T) -> (held: Self) {
        Some(value)
    }

    fn apply<U, F>(self, f: <Option<T> as Rebind<F>>::Higher) -> (applied: <Option<
        T,
    > as Rebind<U>>::Higher) where F: FnOnce(T) -> U {
        match (self, f) {
            (Some(value), Some(function)) => Some(function(value)),
            _ => None,
        }
    }
}

impl<T> Monad<T> for Option<T> {
    fn bind<U, F>(self, f: F) -> (bound: <Option<T> as Rebind<U>>::Higher) where
        F: FnOnce(T) -> <Option<T> as Rebind<U>>::Higher,
     {
        match self {
            Some(value) => f(value),
            None => None,
        }
    }
}

impl<T, E> HKT<T> for Result<T, E> {
    open spec fn content(&self) -> Option<T> {
        match *self {
            Ok(value) => Some(value),
            Err(_) => None,
        }
    }
}

impl<T, E, U> Rebind<U> for Result<T, E> {
    type Higher = Result<U, E>;
}

impl<T, E> Functor<T> for Result<T, E> {
    fn fmap<U, F>(self, f: F) -> (mapped: <Result<T, E> as Rebind<U>>::Higher) where
        F: FnOnce(T) -> U,

        ensures
            self matches Err(error) ==> mapped == Err::<U, E>(error),
    {
        match self {
            Ok(value) => Ok(f(value)),
            Err(error) => Err(error),
        }
    }
}

impl<T, E> Applicative<T> for Result<T, E> {
    fn pure(value: T) -> (held: Self)
        ensures
            held == Ok::<T, E>(value),
    {
        Ok(value)
    }

    fn apply<U, F>(self, f: <Result<T, E> as Rebind<F>>::Higher) -> (applied: <Result<
        T,
        E,
    > as Rebind<U>>::Higher) where F: FnOnce(T) -> U
        ensures
            self matches Err(error) ==> applied == Err::<U, E>(error),
            self is Ok ==> (f matches Err(error) ==> applied == Err::<U, E>(error)),
    {
        match (self, f) {
            (Ok(value), Ok(function)) => Ok(function(value)),
            (Err(error), _) => Err(error),
            (_, Err(error)) => Err(error),
        }
    }
}

impl<T, E> Monad<T> for Result<T, E> {
    fn bind<U, F>(self, f: F) -> (bound: <Result<T, E> as Rebind<U>>::Higher) where
        F: FnOnce(T) -> <Result<T, E> as Rebind<U>>::Higher,

        ensures
            self matches Err(error) ==> bound == Err::<U, E>(error),
    {
        match self {
            Ok(value) => f(value),
            Err(error) => Err(error),
        }
    }
}

/// Hands the value of `m` to `f`, and the value that `f` returns to `g`: the result
/// is what `g` returns, or nothing where `m` or what `f` returns holds nothing.
pub fn chain_option_operations<T, U, V>(
    m: Option<T>,
    f: impl FnOnce(T) -> Option<U>,
    g: impl FnOnce(U) -> Option<V>,
) -> (chained: Option<V>)
    requires
        m matches Some(value) ==> f.requires((value,)),
        forall|value: T, middle: U|
            m == Some(value) && f.ensures((value,), Some(middle)) ==> g.requires((middle,)),
    ensures
        match m {
            Some(value) => exists|between: Option<U>|
                #![auto]
                f.ensures((value,), between) && match between {
                    Some(middle) => g.ensures((middle,), chained),
                    None => chained is None,
                },
            None => chained is None,
        },
{
    m.bind(f).bind(g)
}

/// Hands the value of `m` to `f`, and the value that `f` returns to `g`: the result
/// is what `g` returns, or the first error met on the way.
pub fn chain_result_operations<T, U, V, E>(
    m: Result<T, E>,
    f: impl FnOnce(T) -> Result<U, E>,
    g: impl FnOnce(U) -> Result<V, E>,
) -> (chained: Result<V, E>)
    requires
        m matches Ok(value) ==> f.requires((value,)),
        forall|value: T, middle: U|
            m == Ok::<T, E>(value) && f.ensures((value,), Ok(middle)) ==> g.requires((middle,)),
    ensures
        match m {
            Ok(value) => exists|between: Result<U, E>|
                #![auto]
                f.ensures((value,), between) && match between {
                    Ok(middle) => g.ensures((middle,), chained),
                    Err(error) => chained == Err::<V, E>(error),
                },
            Err(error) => chained == Err::<V, E>(error),
        },
{
    m.bind(f).bind(g)
}

/// Five, doubled and then increased by one, each step through `bind`.
pub fn option_example() -> (result: Option<i32>)
    ensures
        result == Some(11i32),
{
    let double = |x: i32| -> (doubled: Option<i32>)
        requires
            x == 5,
        ensures
            doubled == Some(10i32),
        {
            Some(x * 2)
        };
    let increase = |x: i32| -> (increased: Option<i32>)
        requires
            x == 10,
        ensures
            increased == Some(11i32),
        {
            Some(x + 1)
        };
    Option::pure(5).bind(double).bind(increase)
}

/// Ten, halved and then kept where it is positive, each step through `bind`.
pub fn result_example() -> (result: Result<i32, &'static str>)
    ensures
        result == Ok::<i32, &'static str>(5i32),
{
    let halve = |x: i32| -> (halved: Result<i32, &'static str>)
        requires
            x == 10,
        ensures
            halved == Ok::<i32, &'static str>(5i32),
        {
            Ok(x / 2)
        };
    let keep_positive = |x: i32| -> (kept: Result<i32, &'static str>)
        ensures
            x > 0 ==> kept == Ok::<i32, &'static str>(x),
            x <= 0 ==> kept == Err::<i32, &'static str>("negative"),
        {
            if x > 0 {
                Ok(x)
            } else {
                Err("negative")
            }
        };
    Result::pure(10).bind(halve).bind(keep_positive)
}

/// The text that presents `value`.
pub open spec fn value_text(value: i32) -> Seq<char> {
    "Value: "@ + signed_decimal_text(value as int)
}

/// Writes the text that presents `value`.
pub fn value_string(value: i32) -> (text: String)
    ensures
        text@ == value_text(value),
{
    let mut text = String::from_str("Value: ");
    let number = signed_decimal_string(value);
    text.append(number.as_str());
    text
}

/// The text that presents the value of `m`, or nothing where `m` holds nothing.
pub fn option_to_string_example(m: Option<i32>) -> (text: Option<String>)
    ensures
        match m {
            Some(value) => text matches Some(written) && written@ == value_text(value),
            None => text is None,
        },
{
    let present = |value: i32| -> (held: Option<String>)
        ensures
            held matches Some(written) && written@ == value_text(value),
        {
            Option::pure(value_string(value))
        };
    m.bind(present)
}

/// The text that presents the value of `m`, or the error of `m`.
pub fn result_to_string_example<E>(m: Result<i32, E>) -> (text: Result<String, E>)
    ensures
        match m {
            Ok(value) => text matches Ok(written) && written@ == value_text(value),
            Err(error) => text == Err::<String, E>(error),
        },
{
    let present = |value: i32| -> (held: Result<String, E>)
        ensures
            held matches Ok(written) && written@ == value_text(value),
        {
            Result::pure(value_string(value))
        };
    m.bind(present)
}

} // verus!
