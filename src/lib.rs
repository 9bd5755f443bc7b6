//! An 80-bit extended-precision float held as its raw bit pattern, with
//! accessors for its fields and a conversion to the bits of a 64-bit double
//! done with integer operations alone.
#![allow(non_camel_case_types)]

pub mod convert;
pub mod layout;

pub use layout::f80;
