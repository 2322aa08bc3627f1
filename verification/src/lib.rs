//! Scoped entity lifecycle management.
//!
//! An entity-component substrate hands out entity handles; this library layers
//! a stack of lifetime scopes on top of it, so that every entity created
//! through the managed path is stamped with the scope active at its creation
//! and is destroyed automatically when that scope is popped. Entities created
//! directly through the substrate carry no stamp and outlive every pop.
//!
//! The pieces:
//! - [`scope::ManagedResource`]: the scope stack, a single source of truth for
//!   the depth of the currently active scope.
//! - [`world::World`]: the entity substrate — creation, component attachment,
//!   deferred deletion and the maintenance step that applies it.
//! - [`managed`]: the facade that combines the two — managed creation stamps
//!   the active scope onto the new entity, and popping a scope reaps every
//!   entity stamped with it before returning.
//! - [`model`]: the mathematical model every contract is stated over.
//! - [`laws`]: proofs of the library-wide guarantees (a pop sweeps its scope
//!   clean, unmanaged entities are spared, nesting is strictly LIFO, deletion
//!   is idempotent).
//!
//! Two failure kinds exist and no others. Misuse of the stack discipline —
//! popping or querying the active scope with no scope open, stamping an
//! entity that already carries a stamp — is a fatal protocol violation:
//! those calls state it as a precondition, so verified callers can never make
//! them, and unverified callers must check before calling. Deleting an entity
//! that is already dead is the opposite: an absorbed inconsistency, silently
//! treated as success, because the desired state already holds.

pub mod laws;
pub mod managed;
pub mod model;
pub mod scope;
pub mod world;
