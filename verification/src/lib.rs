use vstd::prelude::*;

pub mod actor;
pub mod laws;
pub mod service;
pub mod state;

verus! {

/// Most identities the admin set may hold.
pub const MAX_ADMINS: usize = 100;

/// Most records the registry may hold at once.
pub const MAX_MVPS: usize = 1000;

/// Most voters a single record may accumulate.
pub const MAX_VOTERS_PER_MVP: usize = 500;

} // verus!
