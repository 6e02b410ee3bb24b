//! The persistence collaborator: an abstract key-value sink that remembers
//! the selected language across sessions. The core is indifferent to the
//! backing store; a host application supplies one (say, browser local or
//! session storage), and the core states of every call only what holds
//! whatever the sink does.

use vstd::prelude::*;

verus! {

/// An external key-value store. Nothing is assumed of its behaviour: the
/// library's contracts hold for every implementation, and every outcome of
/// `set` is handled explicitly.
pub trait PersistenceSink {
    /// Reads the value stored under `key`, if any.
    fn get(&self, key: &str) -> Option<String>;

    /// Writes `value` under `key`; an `Err` carries the sink's detail.
    fn set(&mut self, key: &str, value: &str) -> Result<(), String>;
}

} // verus!
