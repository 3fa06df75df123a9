//! An interpreter for the CHIP-8 virtual machine: instruction decoding and
//! execution against a machine state, with every step specified and proved.
pub mod instruction;
pub mod cpu;
pub mod laws;
