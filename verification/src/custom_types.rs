//! The scheduler and the small typed utilities that accompany it.

pub mod const_generic;
pub mod container;
pub mod decimal;
pub mod functor_monad;
pub mod gat;
pub mod lifecycle_laws;
pub mod priority_order;
pub mod scheduler;
pub mod task;
pub mod typesafe_builder;
pub mod with_lifetime;

pub use const_generic::Array;
pub use const_generic::Matrix;
pub use container::Container;
pub use functor_monad::Applicative;
pub use functor_monad::Functor;
pub use functor_monad::Monad;
pub use functor_monad::HKT;
pub use gat::IntStream;
pub use gat::Stream;
pub use gat::StringStream;
pub use scheduler::Initialized;
pub use scheduler::Running;
pub use scheduler::Scheduler;
pub use scheduler::Stopped;
pub use scheduler::Task;
pub use scheduler::Uninitialized;
pub use typesafe_builder::Person;
pub use typesafe_builder::PersonBuilder;
pub use with_lifetime::WithLifetime;
pub use with_lifetime::WordCounter;
