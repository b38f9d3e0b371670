use vstd::prelude::*;

pub mod builder;
pub mod convert;
pub mod dispatch;
pub mod emit;
pub mod flow;
pub mod intrinsics;
pub mod jit;
pub mod model;
pub mod owner;
pub mod shape;
pub mod text;

verus! {

} // verus!
