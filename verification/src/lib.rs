use vstd::prelude::*;

pub mod text;
pub mod calendar;
pub mod table;
pub mod goal;
pub mod ordering;
pub mod parental;
pub mod child;
pub mod dates;
pub mod allowance;
pub mod transactions;
pub mod storage;
pub mod api;
pub mod mappers;
pub mod money;
pub mod timestamps;

verus! {

} // verus!
