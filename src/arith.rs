use vstd::prelude::*;

verus! {

/// `r` is the square root of `n` rounded down.
pub open spec fn brackets_root(n: nat, r: nat) -> bool {
    r * r <= n && n < (r + 1) * (r + 1)
}

/// The largest `r` with `r * r <= n`.
pub open spec fn floor_sqrt(n: nat) -> nat {
    choose|r: nat| #[trigger] brackets_root(n, r)
}

/// Two numbers that both bracket the root of `n` are the same number.
pub proof fn lemma_root_unique(n: nat, a: nat, b: nat)
    requires
        a * a <= n < (a + 1) * (a + 1),
        b * b <= n < (b + 1) * (b + 1),
    ensures
        a == b,
{
    if a < b {
        assert((a + 1) * (a + 1) <= b * b) by (nonlinear_arith)
            requires a + 1 <= b;
    } else if b < a {
        assert((b + 1) * (b + 1) <= a * a) by (nonlinear_arith)
            requires b + 1 <= a;
    }
}

/// A number that brackets the root of `n` is `floor_sqrt(n)`.
pub proof fn lemma_floor_sqrt_is(n: nat, r: nat)
    requires
        r * r <= n < (r + 1) * (r + 1),
    ensures
        floor_sqrt(n) == r,
{
    assert(brackets_root(n, r));
    let s = floor_sqrt(n);
    assert(brackets_root(n, s));
    lemma_root_unique(n, r, s);
}

/// Every number has a root rounded down.
pub proof fn lemma_floor_sqrt_exists(n: nat)
    ensures
        brackets_root(n, floor_sqrt(n)),
    decreases n,
{
    if n == 0 {
        assert(0nat * 0nat <= 0 && 0 < (0nat + 1) * (0nat + 1)) by (nonlinear_arith);
        assert(brackets_root(0, 0));
    } else {
        lemma_floor_sqrt_exists((n - 1) as nat);
        let r = floor_sqrt((n - 1) as nat);
        if n < (r + 1) * (r + 1) {
            assert(brackets_root(n, r));
        } else {
            assert(n == (r + 1) * (r + 1));
            assert((r + 1) * (r + 1) <= n < (r + 2) * (r + 2)) by (nonlinear_arith)
                requires n == (r + 1) * (r + 1);
            assert(brackets_root(n, r + 1));
        }
    }
}

/// The floor of the square root grows with its argument.
pub proof fn lemma_floor_sqrt_monotone(a: nat, b: nat)
    requires
        a <= b,
    ensures
        floor_sqrt(a) <= floor_sqrt(b),
{
    lemma_floor_sqrt_exists(a);
    lemma_floor_sqrt_exists(b);
    let ra = floor_sqrt(a);
    let rb = floor_sqrt(b);
    if ra > rb {
        assert((rb + 1) * (rb + 1) <= ra * ra) by (nonlinear_arith)
            requires rb + 1 <= ra;
    }
}

/// The floor of the square root is at most `m` whenever `n <= m * m`.
pub proof fn lemma_floor_sqrt_at_most(n: nat, m: nat)
    requires
        n <= m * m,
    ensures
        floor_sqrt(n) <= m,
{
    lemma_floor_sqrt_exists(n);
    let r = floor_sqrt(n);
    assert(r <= m) by (nonlinear_arith)
        requires
            r * r <= n,
            n <= m * m,
    ;
}

/// Products of bounded naturals are bounded by the product of the bounds.
pub proof fn lemma_mul_le(a: int, b: int, ba: int, bb: int)
    requires
        0 <= a <= ba,
        0 <= b <= bb,
    ensures
        0 <= a * b <= ba * bb,
{
    assert(0 <= a * b <= ba * bb) by (nonlinear_arith)
        requires
            0 <= a <= ba,
            0 <= b <= bb,
    ;
}

/// Integer square root, rounded down.
pub fn isqrt(n: u64) -> (r: u64)
    ensures
        r as nat == floor_sqrt(n as nat),
        r * r <= n < (r + 1) * (r + 1),
{
    let mut lo: u64 = 0;
    let mut hi: u64 = 0x1_0000_0000;
    assert(n < hi * hi);
    while hi - lo > 1
        invariant
            lo < hi <= 0x1_0000_0000,
            lo * lo <= n < hi * hi,
        decreases hi - lo,
    {
        let mid: u64 = lo + (hi - lo) / 2;
        assert(mid * mid <= 0xffff_ffff * 0xffff_ffff) by (nonlinear_arith)
            requires mid < 0x1_0000_0000;
        if mid * mid <= n {
            lo = mid;
        } else {
            hi = mid;
        }
    }
    proof {
        lemma_floor_sqrt_is(n as nat, lo as nat);
    }
    lo
}

} // verus!
