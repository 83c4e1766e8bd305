use vstd::prelude::*;
use crate::value::Value;

verus! {

/// The values that `n` names receive from a list of results: the first `n`
/// results, with nil for each name past the end of the list.
pub open spec fn bound(values: Seq<Value>, n: nat) -> Seq<Value> {
    Seq::new(n, |i: int| if i < values.len() { values[i] } else { Value::Nil })
}

/// Binds a list of results to `n` names.
pub fn bind(values: Vec<Value>, n: usize) -> (r: Vec<Value>)
    ensures
        r@ == bound(values@, n as nat),
{
    let mut r = values;
    let ghost original = r@;
    r.truncate(n);
    while r.len() < n
        invariant
            r@.len() <= n,
            r@.len() < n ==> r@.len() >= original.len(),
            forall|i: int| 0 <= i < r@.len() ==> #[trigger] r@[i] == bound(original, n as nat)[i],
        decreases n - r@.len(),
    {
        r.push(Value::Nil);
    }
    proof {
        assert(r@ =~= bound(original, n as nat));
    }
    r
}

/// Calls a native callback on `args` and binds its results to `n` names.
pub fn call_native<F: Fn(Vec<Value>) -> Vec<Value>>(callback: &F, args: Vec<Value>, n: usize) -> (r: Vec<Value>)
    requires
        callback.requires((args,)),
    ensures
        exists|out: Vec<Value>| callback.ensures((args,), out) && r@ == bound(out@, n as nat),
{
    let out = callback(args);
    let ghost results = out;
    let r = bind(out, n);
    proof {
        assert(callback.ensures((args,), results) && r@ == bound(results@, n as nat));
    }
    r
}

} // verus!
