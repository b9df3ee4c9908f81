//! A memory scanner and Unreal Engine reflection toolkit over a model of a
//! target process's address space: first and next scans over its memory
//! map, byte-pattern search, and traversal of the engine's name pool and
//! object graph, each with its contract proved.

use vstd::prelude::*;

pub mod byteseq;
pub mod engine;
pub mod filter;
pub mod memory;
pub mod process;
pub mod numeric;
pub mod scan_result;
pub mod scanner;
pub mod simd;
pub mod text;
pub mod value;
pub mod views;

verus! {

} // verus!
