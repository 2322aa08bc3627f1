//! The scope stack.
//!
//! Scopes form a stack and are identified by their depth, a monotonically
//! increasing positive integer: the first push opens scope `1`, a push at
//! depth `d` opens scope `d + 1`, and a pop closes the most recent scope and
//! returns to `d`. Depth `0` is the ground state in which no scope is open.
//! The stack is pure bookkeeping: it never touches the entity substrate.

use vstd::prelude::*;

verus! {

/// The scope stack: a single source of truth for the depth of the currently
/// active scope. Constructing one puts it in the ground state (depth `0`,
/// no scope open).
pub struct ManagedResource {
    active_state: usize,
}

impl View for ManagedResource {
    type V = int;

    /// The depth of the currently active scope; `0` when no scope is open.
    closed spec fn view(&self) -> int {
        self.active_state as int
    }
}

impl ManagedResource {
    /// A stack in the ground state: no scope open yet.
    pub fn new() -> (r: ManagedResource)
        ensures
            r@ == 0,
    {
        ManagedResource { active_state: 0 }
    }

    /// Opens a new scope one level deeper than the current one.
    pub fn push_state(&mut self)
        requires
            old(self)@ < usize::MAX,
        ensures
            final(self)@ == old(self)@ + 1,
    {
        self.active_state = self.active_state + 1;
    }

    /// Closes the most recent scope and returns its identifier.
    ///
    /// Popping with no scope open is a caller bug — a fatal precondition
    /// violation, never a silent no-op — so the ground state is excluded by
    /// `requires`.
    pub fn pop_state(&mut self) -> (prev: usize)
        requires
            old(self)@ >= 1,
        ensures
            prev as int == old(self)@,
            final(self)@ == old(self)@ - 1,
    {
        let prev: usize = self.active_state;
        self.active_state = self.active_state - 1;
        prev
    }

    /// The identifier of the currently active scope, without mutating the
    /// stack.
    ///
    /// Querying before any push is a caller bug and is excluded by
    /// `requires`: in the ground state there is no active scope to name.
    pub fn active_scope(&self) -> (d: usize)
        requires
            self@ >= 1,
        ensures
            d as int == self@,
    {
        self.active_state
    }
}

impl Default for ManagedResource {
    /// Same ground state as [`ManagedResource::new`].
    fn default() -> (r: Self)
        ensures
            r@ == 0,
    {
        ManagedResource { active_state: 0 }
    }
}

} // verus!
