//! A multi-tenant SOCKS5 proxy core: the wire codec, the per-connection
//! session machine, the per-listener policy state and the registry of
//! listeners, each stated and proved.
use vstd::prelude::*;

pub mod codec;
pub mod ids;
pub mod users;
pub mod listener;
pub mod session;
pub mod manager;
pub mod statics;

use crate::codec::SOCKS5_VERSION;

verus! {

/// Whether `version` is the SOCKS5 version byte.
pub fn check_valid_version(version: &u8) -> (r: bool)
    ensures
        r == (*version == SOCKS5_VERSION),
{
    *version == SOCKS5_VERSION
}

} // verus!
