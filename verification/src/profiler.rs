use vstd::prelude::*;

verus! {

/// Marks the start of a profiled part of a script. Nothing is profiled, so the mark is empty.
pub fn profiler_start(_name: &str) -> (r: Vec<u8>)
    ensures
        r@ == Seq::<u8>::empty(),
{
    Vec::new()
}

/// Marks the end of a profiled part of a script. Nothing is profiled, so the mark is empty.
pub fn profiler_end(_name: &str) -> (r: Vec<u8>)
    ensures
        r@ == Seq::<u8>::empty(),
{
    Vec::new()
}

} // verus!
