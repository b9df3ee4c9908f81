use vstd::prelude::*;

pub mod error;
pub mod facade;
pub mod native;
pub mod types;
pub mod unity_il2cpp;
pub mod unity_mono;
pub mod unreal;

verus! {

} // verus!
