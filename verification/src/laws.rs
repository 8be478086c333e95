//! What holds of the library as a whole, stated over its functions' inputs and
//! results alone: the bytes, characters, bits and JSON members that go in, and
//! the fields that come out.

pub mod adapter_payloads;
pub mod delivery;
pub mod levels;
pub mod links;
pub mod payloads;
pub mod values;
