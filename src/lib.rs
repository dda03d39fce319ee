//! The SHA-512 compression function as a table of polynomial constraints:
//! spread encodings, word decompositions, gate identities and the round
//! driver that assigns every witness cell.

pub mod compression;
pub mod functions;
pub mod gates;
pub mod halves;
pub mod spread;
pub mod spread_table;
pub mod words;
