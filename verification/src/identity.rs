//! Build identity of one firmware application.

use vstd::prelude::*;

verus! {

/// Build identity of one firmware application.
#[derive(Clone, Copy, Debug)]
pub struct Identity {
    /// Human-readable identification used in the boot banner.
    pub banner: &'static str,
    /// Identity published on the wire, padded or truncated to 16 bytes.
    pub version: &'static str,
    /// Version of the platform the application was built against.
    pub platform: &'static str,
}

} // verus!
