//! A prefix-scoped key-value store abstraction.
//!
//! The crate defines the [`Store`] contract — backend adapters meet it at
//! the I/O boundary — together with [`ScopedStore`], a decorator that
//! namespaces every key with a fixed prefix before delegating to the store it
//! wraps. Scoping is pure value construction: it performs no store operation.
//!
//! Two reference backends come with the contract: [`MemStore`], an in-memory
//! store that never fails, and [`FailStore`], a store whose every operation
//! fails with a fixed error, useful to observe that scoping alone never
//! touches the backend.

mod failing;
mod memory;
mod store;

pub use failing::FailStore;
pub use memory::MemStore;
pub use memory::NoError;
pub use store::ScopedStore;
pub use store::Store;
pub use store::lemma_empty_prefix_identity;
pub use store::lemma_error_transparency;
pub use store::lemma_prefix_composition;
pub use store::lemma_prefix_injective;
pub use store::lemma_round_trip;
pub use store::lemma_scoped_view_compose;
pub use store::lemma_scoped_view_insert;
pub use store::scoped_view;
