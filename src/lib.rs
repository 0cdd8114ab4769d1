use vstd::prelude::*;

pub mod collision;
pub mod components;
pub mod container;
pub mod geometry;
pub mod observer;
pub mod systems;
pub mod world;

verus! {

} // verus!
