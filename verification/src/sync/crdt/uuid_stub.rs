//! Minimal UUID stand-in, so object ids need no UUID dependency yet.
use vstd::prelude::*;

verus! {

#[derive(Debug, Clone, Copy, PartialEq, Eq, Hash, Structural)]
pub struct Uuid(pub u128);

} // verus!
