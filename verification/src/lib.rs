pub mod addr;
pub mod binds;
pub mod config;
pub mod query;
pub mod reload;
pub mod store;
pub mod text;

use vstd::prelude::*;

verus! {

/// Startup-time settings: the identifier of this daemon instance and the
/// network address of the policy store it reads its configuration from.
/// Loaded once before any other component exists and immutable afterwards.
pub struct Confile {
    pub daemon_id: Vec<u8>,
    pub store_address: Vec<u8>,
}

} // verus!
