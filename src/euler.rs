use vstd::prelude::*;

verus! {

/// `n!`, the product of the numbers from 1 to `n`.
pub open spec fn fact(n: nat) -> nat
    decreases n,
{
    if n == 0 {
        1
    } else {
        n * fact((n - 1) as nat)
    }
}

proof fn lemma_fact_grows(a: nat, b: nat)
    requires
        a <= b,
    ensures
        fact(a) <= fact(b),
    decreases b - a,
{
    if a < b {
        lemma_fact_grows(a, (b - 1) as nat);
        assert(fact(b) == b * fact((b - 1) as nat));
        assert(b * fact((b - 1) as nat) >= fact((b - 1) as nat)) by (nonlinear_arith)
            requires
                b >= 1,
        ;
    }
}

/// Every factorial up to `34!` fits in a `u128`.
proof fn lemma_fact_fits(n: nat)
    requires
        n <= 34,
    ensures
        fact(n) <= u128::MAX,
{
    assert(fact(0) == 1);
    assert(fact(1) == 1);
    assert(fact(2) == 2);
    assert(fact(3) == 6);
    assert(fact(4) == 24);
    assert(fact(5) == 120);
    assert(fact(6) == 720);
    assert(fact(7) == 5040);
    assert(fact(8) == 40320);
    assert(fact(9) == 362880);
    assert(fact(10) == 3628800);
    assert(fact(11) == 39916800);
    assert(fact(12) == 479001600);
    assert(fact(13) == 6227020800);
    assert(fact(14) == 87178291200);
    assert(fact(15) == 1307674368000);
    assert(fact(16) == 20922789888000);
    assert(fact(17) == 355687428096000);
    assert(fact(18) == 6402373705728000);
    assert(fact(19) == 121645100408832000);
    assert(fact(20) == 2432902008176640000);
    assert(fact(21) == 51090942171709440000);
    assert(fact(22) == 1124000727777607680000);
    assert(fact(23) == 25852016738884976640000);
    assert(fact(24) == 620448401733239439360000);
    assert(fact(25) == 15511210043330985984000000);
    assert(fact(26) == 403291461126605635584000000);
    assert(fact(27) == 10888869450418352160768000000);
    assert(fact(28) == 304888344611713860501504000000);
    assert(fact(29) == 8841761993739701954543616000000);
    assert(fact(30) == 265252859812191058636308480000000);
    assert(fact(31) == 8222838654177922817725562880000000);
    assert(fact(32) == 263130836933693530167218012160000000);
    assert(fact(33) == 8683317618811886495518194401280000000);
    assert(fact(34) == 295232799039604140847618609643520000000);
    lemma_fact_grows(n, 34);
}

/// `number!`.
pub fn factorial(number: u128) -> (r: u128)
    requires
        number <= 34,
    ensures
        r == fact(number as nat),
    decreases number,
{
    proof {
        lemma_fact_fits(number as nat);
    }
    match number {
        0 => 1,
        _ => number * factorial(number - 1),
    }
}

} // verus!
