//! Instance lifecycle and low-level execution core of a WebAssembly runtime:
//! memory regions with copy-on-write duplication, trap-handler scopes,
//! thread-local state hand-over for stack switching, and instance creation
//! and duplication.

use vstd::prelude::*;

pub mod instance;
pub mod mmap;
pub mod tls;
pub mod trap;

verus! {

} // verus!
