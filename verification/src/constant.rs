//! Fixed texts.
use vstd::prelude::*;

verus! {

/// What a new configuration file holds.
pub const DEFAULT_CONFIG_CONTENT: &'static str = "[server]\nlisten = \"127.0.0.1:8127\"\n\n[[accounts]]\nprovider = \"kiro\"\n";

} // verus!
