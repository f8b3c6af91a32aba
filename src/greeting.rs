//! Greeting and arithmetic helpers of the workspace tool.

use vstd::prelude::*;
use vstd::string::StringExecFns;

verus! {

/// The greeting for `name`.
pub fn greet(name: &str) -> (r: String)
    ensures
        r@ == "Hello, "@ + name@ + "! Welcome to the workspace tool."@,
{
    let mut s = String::from_str("Hello, ");
    s.append(name);
    s.append("! Welcome to the workspace tool.");
    s
}

/// The sum of `a` and `b`, which must fit in an `i32`.
pub fn add(a: i32, b: i32) -> (r: i32)
    requires
        i32::MIN <= a + b <= i32::MAX,
    ensures
        r == a + b,
{
    a + b
}

} // verus!
