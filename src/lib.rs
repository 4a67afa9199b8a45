//! Browse a filesystem, keep a list of shared files, and serve that list to
//! viewers on the local network.
use vstd::prelude::*;

pub mod entry;
pub mod selection;
pub mod share;
pub mod history;
pub mod nav;
pub mod web;
pub mod console;

verus! {

/// The TCP port on which the shared files are served.
pub const PORT: u16 = 33231;

} // verus!
