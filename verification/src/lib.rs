//! A verified task registry.
//!
//! A [`TodoContract`] owns a set of [`Todo`] records keyed by an id that it
//! assigns itself, starting at 1 and rising by one with each record. Every
//! successful mutation appends one [`TodoEvent`] to an outbox that the host
//! drains and forwards to its observers.
//!
//! What each operation does is stated over [`StoreState`], the store as a
//! mathematical state machine; what holds of every history is proved in
//! [`laws`].
//!
//! The store keeps its whole state in memory. Persisting it and delivering the
//! events are the host's business: [`TodoContract::restore`] rebuilds a store
//! from what the host kept, and [`TodoContract::take_events`] hands over what
//! is due.

pub mod event;
pub mod laws;
pub mod model;
pub mod store;
pub mod todo;

pub use event::EventView;
pub use event::TodoCreated;
pub use event::TodoDeleted;
pub use event::TodoEvent;
pub use event::TodoUpdated;
pub use model::Op;
pub use model::StoreState;
pub use store::TodoContract;
pub use todo::Todo;
pub use todo::TodoView;
