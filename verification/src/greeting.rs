use vstd::prelude::*;

verus! {

/// The greeting with which each contract answers `hello_world`.
pub fn hello_world() -> (r: String)
    ensures
        r@ == "Hello, World!"@,
{
    "Hello, World!".to_owned()
}

} // verus!
