//! A builder of a person record whose type tells which fields were given, so that a
//! record can be built only when all of them were.

use std::marker::PhantomData;
use vstd::prelude::*;
use vstd::string::StringExecFns;

verus! {

/// Marks a builder that still lacks a field.
pub struct Incomplete;

/// Marks a builder that lacks nothing.
pub struct Complete;

/// Borne by the marker of a name that was given.
pub trait HasName {

}

/// Borne by the marker of an age that was given.
pub trait HasAge {

}

/// Borne by the marker of an email address that was given.
pub trait HasEmail {

}

/// The name was given.
pub struct WithName;

/// The age was given.
pub struct WithAge;

/// The email address was given.
pub struct WithEmail;

impl HasName for WithName {

}

impl HasAge for WithAge {

}

impl HasEmail for WithEmail {

}

/// A type in the place of a field in the builder's type: it tells whether the field
/// was given.
pub trait FieldMarker {
    /// Whether the field was given.
    spec fn is_given() -> bool;
}

impl FieldMarker for () {
    open spec fn is_given() -> bool {
        false
    }
}

impl FieldMarker for WithName {
    open spec fn is_given() -> bool {
        true
    }
}

impl FieldMarker for WithAge {
    open spec fn is_given() -> bool {
        true
    }
}

impl FieldMarker for WithEmail {
    open spec fn is_given() -> bool {
        true
    }
}

/// What a person record holds, as a mathematical value.
pub struct PersonView {
    pub name: Seq<char>,
    pub age: u32,
    pub email: Seq<char>,
}

/// A person: a name, an age and an email address.
#[derive(Debug)]
pub struct Person {
    name: String,
    age: u32,
    email: String,
}

impl View for Person {
    type V = PersonView;

    closed spec fn view(&self) -> PersonView {
        PersonView { name: self.name@, age: self.age, email: self.email@ }
    }
}

impl Clone for Person {
    fn clone(&self) -> (copy: Self)
        ensures
            copy@ == self@,
    {
        Person { name: self.name.clone(), age: self.age, email: self.email.clone() }
    }
}

impl Person {
    /// The person's name.
    pub fn name(&self) -> (name: &str)
        ensures
            name@ == self@.name,
    {
        self.name.as_str()
    }

    /// The person's age.
    pub fn age(&self) -> (age: u32)
        ensures
            age == self@.age,
    {
        self.age
    }

    /// The person's email address.
    pub fn email(&self) -> (email: &str)
        ensures
            email@ == self@.email,
    {
        self.email.as_str()
    }
}

/// What a builder holds, as a mathematical value: each field, where it was given.
pub struct PersonBuilderView {
    pub name: Option<Seq<char>>,
    pub age: Option<u32>,
    pub email: Option<Seq<char>>,
}

/// A builder of a [`Person`]. `Name`, `Age` and `Email` tell which fields were given.
pub struct PersonBuilder<Name: FieldMarker, Age: FieldMarker, Email: FieldMarker> {
    name: Option<String>,
    age: Option<u32>,
    email: Option<String>,
    _phantom: PhantomData<(Name, Age, Email)>,
}

impl<Name: FieldMarker, Age: FieldMarker, Email: FieldMarker> View for PersonBuilder<
    Name,
    Age,
    Email,
> {
    type V = PersonBuilderView;

    closed spec fn view(&self) -> PersonBuilderView {
        PersonBuilderView {
            name: match self.name {
                Some(name) => Some(name@),
                None => None,
            },
            age: self.age,
            email: match self.email {
                Some(email) => Some(email@),
                None => None,
            },
        }
    }
}

impl PersonBuilder<(), (), ()> {
    /// A builder to which no field was given.
    pub fn new() -> (builder: Self)
        ensures
            builder@ == (PersonBuilderView { name: None, age: None, email: None }),
    {
        PersonBuilder { name: None, age: None, email: None, _phantom: PhantomData }
    }
}

impl<Age: FieldMarker, Email: FieldMarker> PersonBuilder<(), Age, Email> {
    /// Gives the name.
    pub fn name(self, name: String) -> (builder: PersonBuilder<WithName, Age, Email>)
        ensures
            builder@ == (PersonBuilderView { name: Some(name@), ..self@ }),
    {
        proof {
            use_type_invariant(&self);
        }
        PersonBuilder { name: Some(name), age: self.age, email: self.email, _phantom: PhantomData }
    }
}

impl<Name: FieldMarker, Email: FieldMarker> PersonBuilder<Name, (), Email> {
    /// Gives the age.
    pub fn age(self, age: u32) -> (builder: PersonBuilder<Name, WithAge, Email>)
        ensures
            builder@ == (PersonBuilderView { age: Some(age), ..self@ }),
    {
        proof {
            use_type_invariant(&self);
        }
        PersonBuilder { name: self.name, age: Some(age), email: self.email, _phantom: PhantomData }
    }
}

impl<Name: FieldMarker, Age: FieldMarker> PersonBuilder<Name, Age, ()> {
    /// Gives the email address.
    pub fn email(self, email: String) -> (builder: PersonBuilder<Name, Age, WithEmail>)
        ensures
            builder@ == (PersonBuilderView { email: Some(email@), ..self@ }),
    {
        proof {
            use_type_invariant(&self);
        }
        PersonBuilder { name: self.name, age: self.age, email: Some(email), _phantom: PhantomData }
    }
}

impl PersonBuilder<WithName, WithAge, WithEmail> {
    /// Builds the person from the three fields.
    pub fn build(self) -> (person: Person)
        ensures
            self@.name == Some(person@.name),
            self@.age == Some(person@.age),
            self@.email == Some(person@.email),
    {
        proof {
            use_type_invariant(&self);
        }
        Person { name: self.name.unwrap(), age: self.age.unwrap(), email: self.email.unwrap() }
    }
}

impl<Name: FieldMarker, Age: FieldMarker, Email: FieldMarker> PersonBuilder<Name, Age, Email> {
    /// A field is held exactly where its marker says that it was given.
    #[verifier::type_invariant]
    spec fn fields_match_markers(self) -> bool {
        &&& self.name is Some <==> Name::is_given()
        &&& self.age is Some <==> Age::is_given()
        &&& self.email is Some <==> Email::is_given()
    }

    /// Whether the name was given.
    pub fn has_name(&self) -> (given: bool)
        ensures
            given == Name::is_given(),
            given == (self@.name is Some),
    {
        proof {
            use_type_invariant(self);
        }
        self.name.is_some()
    }

    /// Whether the age was given.
    pub fn has_age(&self) -> (given: bool)
        ensures
            given == Age::is_given(),
            given == (self@.age is Some),
    {
        proof {
            use_type_invariant(self);
        }
        self.age.is_some()
    }

    /// Whether the email address was given.
    pub fn has_email(&self) -> (given: bool)
        ensures
            given == Email::is_given(),
            given == (self@.email is Some),
    {
        proof {
            use_type_invariant(self);
        }
        self.email.is_some()
    }
}

/// Starts a builder and gives it a name: what it returns cannot build a person yet,
/// for `build` exists only on a builder to which all three fields were given.
pub fn demonstrate_builder_safety() -> (builder: PersonBuilder<WithName, (), ()>)
    ensures
        builder@.name is Some,
        builder@.age is None,
        builder@.email is None,
{
    let builder = PersonBuilder::new();
    builder.name(String::from_str("Alice"))
}

} // verus!
