//! A 144-bit game password record.
//!
//! The record is an 18-byte buffer addressed either by whole bytes or by
//! absolute bit index, with the most-significant bit of each byte first.
//! Mutation is bounds-checked, and a one-byte summation checksum over the
//! first 17 bytes is computed on demand.

pub mod errors;
pub mod password;
