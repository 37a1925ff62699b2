use vstd::prelude::*;

pub mod id;
pub mod text;
pub mod types;
pub mod service;
pub mod service_manager;
pub mod overview;
pub mod laws;

verus! {

} // verus!
