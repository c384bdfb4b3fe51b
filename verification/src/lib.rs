//! Aether: the capability microkernel model, the temporal sync engine and
//! the client SDK surface, with their behaviour stated as Verus contracts.
pub mod kernel;
pub mod sdk;
pub mod sync;
