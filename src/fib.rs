//! Fibonacci numbers, computed two ways, and parsing of their index.

use vstd::prelude::*;
use vstd::string::StringExecFns;

use crate::text::{decimal_value, is_unsigned_decimal, parse_u64, trim_str, trimmed, unsigned_digits};

verus! {

/// The `n`-th Fibonacci number.
pub open spec fn fib(n: nat) -> nat
    decreases n,
{
    if n == 0 {
        0
    } else if n == 1 {
        1
    } else {
        fib((n - 1) as nat) + fib((n - 2) as nat)
    }
}

/// Reads a Fibonacci index: a decimal number, with surrounding whitespace allowed.
pub fn parse_n(input: &str) -> (r: Result<u64, std::num::ParseIntError>)
    ensures
        r is Ok <==> is_unsigned_decimal(trimmed(input@), u64::MAX as nat),
        r matches Ok(v) ==> v == decimal_value(unsigned_digits(trimmed(input@))),
{
    parse_u64(trim_str(input))
}

proof fn lemma_fib_monotone(m: nat, n: nat)
    requires
        m <= n,
    ensures
        fib(m) <= fib(n),
    decreases n - m,
{
    if m < n {
        lemma_fib_monotone(m, (n - 1) as nat);
        if n >= 2 {
            assert(fib(n) == fib((n - 1) as nat) + fib((n - 2) as nat));
        }
    }
}

/// The `n`-th Fibonacci number, computed in a loop.
pub fn fib_iter(n: u64) -> (r: u64)
    requires
        fib(n as nat) <= u64::MAX,
    ensures
        r == fib(n as nat),
{
    match n {
        0 => 0,
        1 => 1,
        _ => {
            let mut prev: u64 = 0;
            let mut curr: u64 = 1;
            let mut i: u64 = 1;
            while i < n
                invariant
                    1 <= i <= n,
                    fib(n as nat) <= u64::MAX,
                    prev == fib((i - 1) as nat),
                    curr == fib(i as nat),
                decreases n - i,
            {
                proof {
                    lemma_fib_monotone((i + 1) as nat, n as nat);
                }
                let next = prev + curr;
                prev = curr;
                curr = next;
                i = i + 1;
            }
            curr
        },
    }
}

/// The `n`-th Fibonacci number, computed by the defining recursion
/// (exponential time).
pub fn fib_rec(n: u64) -> (r: u64)
    requires
        fib(n as nat) <= u64::MAX,
    ensures
        r == fib(n as nat),
    decreases n,
{
    match n {
        0 => 0,
        1 => 1,
        _ => {
            proof {
                lemma_fib_monotone((n - 1) as nat, n as nat);
                lemma_fib_monotone((n - 2) as nat, n as nat);
            }
            fib_rec(n - 1) + fib_rec(n - 2)
        },
    }
}

/// The largest index whose Fibonacci number fits in a `u64`.
pub const MAX_FIB_INDEX: u64 = 93;

/// The largest index whose Fibonacci number is still computed by recursion.
pub const MAX_RECURSIVE_INDEX: u64 = 40;

proof fn lemma_fib_fits(n: nat)
    requires
        n <= MAX_FIB_INDEX,
    ensures
        fib(n) <= u64::MAX,
{
    // Each value follows from the two before it.
    assert(fib(0) == 0);
    assert(fib(1) == 1);
    assert(fib(2) == 1);
    assert(fib(3) == 2);
    assert(fib(4) == 3);
    assert(fib(5) == 5);
    assert(fib(6) == 8);
    assert(fib(7) == 13);
    assert(fib(8) == 21);
    assert(fib(9) == 34);
    assert(fib(10) == 55);
    assert(fib(11) == 89);
    assert(fib(12) == 144);
    assert(fib(13) == 233);
    assert(fib(14) == 377);
    assert(fib(15) == 610);
    assert(fib(16) == 987);
    assert(fib(17) == 1597);
    assert(fib(18) == 2584);
    assert(fib(19) == 4181);
    assert(fib(20) == 6765);
    assert(fib(21) == 10946);
    assert(fib(22) == 17711);
    assert(fib(23) == 28657);
    assert(fib(24) == 46368);
    assert(fib(25) == 75025);
    assert(fib(26) == 121393);
    assert(fib(27) == 196418);
    assert(fib(28) == 317811);
    assert(fib(29) == 514229);
    assert(fib(30) == 832040);
    assert(fib(31) == 1346269);
    assert(fib(32) == 2178309);
    assert(fib(33) == 3524578);
    assert(fib(34) == 5702887);
    assert(fib(35) == 9227465);
    assert(fib(36) == 14930352);
    assert(fib(37) == 24157817);
    assert(fib(38) == 39088169);
    assert(fib(39) == 63245986);
    assert(fib(40) == 102334155);
    assert(fib(41) == 165580141);
    assert(fib(42) == 267914296);
    assert(fib(43) == 433494437);
    assert(fib(44) == 701408733);
    assert(fib(45) == 1134903170);
    assert(fib(46) == 1836311903);
    assert(fib(47) == 2971215073);
    assert(fib(48) == 4807526976);
    assert(fib(49) == 7778742049);
    assert(fib(50) == 12586269025);
    assert(fib(51) == 20365011074);
    assert(fib(52) == 32951280099);
    assert(fib(53) == 53316291173);
    assert(fib(54) == 86267571272);
    assert(fib(55) == 139583862445);
    assert(fib(56) == 225851433717);
    assert(fib(57) == 365435296162);
    assert(fib(58) == 591286729879);
    assert(fib(59) == 956722026041);
    assert(fib(60) == 1548008755920);
    assert(fib(61) == 2504730781961);
    assert(fib(62) == 4052739537881);
    assert(fib(63) == 6557470319842);
    assert(fib(64) == 10610209857723);
    assert(fib(65) == 17167680177565);
    assert(fib(66) == 27777890035288);
    assert(fib(67) == 44945570212853);
    assert(fib(68) == 72723460248141);
    assert(fib(69) == 117669030460994);
    assert(fib(70) == 190392490709135);
    assert(fib(71) == 308061521170129);
    assert(fib(72) == 498454011879264);
    assert(fib(73) == 806515533049393);
    assert(fib(74) == 1304969544928657);
    assert(fib(75) == 2111485077978050);
    assert(fib(76) == 3416454622906707);
    assert(fib(77) == 5527939700884757);
    assert(fib(78) == 8944394323791464);
    assert(fib(79) == 14472334024676221);
    assert(fib(80) == 23416728348467685);
    assert(fib(81) == 37889062373143906);
    assert(fib(82) == 61305790721611591);
    assert(fib(83) == 99194853094755497);
    assert(fib(84) == 160500643816367088);
    assert(fib(85) == 259695496911122585);
    assert(fib(86) == 420196140727489673);
    assert(fib(87) == 679891637638612258);
    assert(fib(88) == 1100087778366101931);
    assert(fib(89) == 1779979416004714189);
    assert(fib(90) == 2880067194370816120);
    assert(fib(91) == 4660046610375530309);
    assert(fib(92) == 7540113804746346429);
    assert(fib(93) == 12200160415121876738);
    lemma_fib_monotone(n, 93);
}

/// What the Fibonacci command reports: the index, its number computed in a
/// loop, and computed by recursion where the index is small enough.
#[derive(Clone, Copy, Debug, PartialEq, Eq, Structural)]
pub struct FibReport {
    pub n: u64,
    pub iterative: u64,
    pub recursive: Option<u64>,
}

/// The message for an index that is not a number: a fixed prefix, then
/// what the parse error says.
fn invalid_n_message(e: &std::num::ParseIntError) -> (r: String)
    ensures
        r@.len() >= "invalid n: "@.len(),
        r@.subrange(0, "invalid n: "@.len() as int) == "invalid n: "@,
{
    let mut m = String::from_str("invalid n: ");
    let ghost prefix = m@;
    m.append(e.to_string().as_str());
    assert(m@.subrange(0, prefix.len() as int) =~= prefix);
    m
}

/// Runs the Fibonacci command on its arguments: the first is the index,
/// which must be a number no greater than 93.
pub fn run_fib(args: &[String]) -> (r: Result<FibReport, String>)
    ensures
        args@.len() == 0 ==> (r matches Err(e) && e@ == "missing n for fib"@),
        args@.len() > 0 && !is_unsigned_decimal(trimmed(args@[0]@), u64::MAX as nat) ==> (r matches Err(e)
            && e@.len() >= "invalid n: "@.len() && e@.subrange(0, "invalid n: "@.len() as int)
            == "invalid n: "@),
        args@.len() > 0 && is_unsigned_decimal(trimmed(args@[0]@), u64::MAX as nat)
            && decimal_value(unsigned_digits(trimmed(args@[0]@))) > MAX_FIB_INDEX ==> (r matches Err(e)
            && e@ == "n too large for u64 fibonacci (max 93)"@),
        r matches Ok(rep) ==> {
            &&& args@.len() > 0
            &&& rep.n == decimal_value(unsigned_digits(trimmed(args@[0]@)))
            &&& rep.n <= MAX_FIB_INDEX
            &&& rep.iterative == fib(rep.n as nat)
            &&& rep.recursive == if rep.n <= MAX_RECURSIVE_INDEX {
                Some(fib(rep.n as nat) as u64)
            } else {
                None
            }
        },
        args@.len() > 0 && is_unsigned_decimal(trimmed(args@[0]@), u64::MAX as nat)
            && decimal_value(unsigned_digits(trimmed(args@[0]@))) <= MAX_FIB_INDEX ==> r is Ok,
{
    if args.len() == 0 {
        return Err(String::from_str("missing n for fib"));
    }
    let n = match parse_n(args[0].as_str()) {
        Ok(n) => n,
        Err(e) => return Err(invalid_n_message(&e)),
    };
    if n > MAX_FIB_INDEX {
        return Err(String::from_str("n too large for u64 fibonacci (max 93)"));
    }
    proof {
        lemma_fib_fits(n as nat);
    }
    let iterative = fib_iter(n);
    let recursive = if n <= MAX_RECURSIVE_INDEX {
        Some(fib_rec(n))
    } else {
        None
    };
    Ok(FibReport { n, iterative, recursive })
}

} // verus!
