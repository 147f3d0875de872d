//! A priority scheduler whose lifecycle phase is part of its type, and the small
//! typed utilities that accompany it: fixed-size arrays and matrices, a builder that
//! knows which fields it was given, containers that can be mapped, and streams that
//! lend their items.

pub mod custom_types;

pub use custom_types::const_generic;
pub use custom_types::container;
pub use custom_types::functor_monad;
pub use custom_types::gat;
pub use custom_types::scheduler;
pub use custom_types::typesafe_builder;
pub use custom_types::with_lifetime;
