use vstd::prelude::*;

pub mod value;
pub mod float;
pub mod integer;
pub mod numeral;
pub mod callback;
pub mod coroutine;
pub mod strlib;

verus! {

} // verus!
