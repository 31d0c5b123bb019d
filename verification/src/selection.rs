use vstd::prelude::*;

use vstd::arithmetic::div_mod::{
    lemma_add_mod_noop, lemma_div_of0, lemma_fundamental_div_mod,
    lemma_fundamental_div_mod_converse_div, lemma_fundamental_div_mod_converse_mod,
    lemma_mod_add_multiples_vanish, lemma_mod_division_less_than_divisor, lemma_small_mod,
};

verus! {

// Round-robin selection over `n` healthy backends is driven by a
// monotonically advancing cursor: one selection reads the cursor value
// `c` and picks position `c % n` of the healthy subsequence. Within a
// window of selections whose cursor does not wrap, the `i`-th
// selection of a window that starts at cursor value `c0` therefore
// picks position `rr_index(c0, i, n)`.
/// Healthy-subsequence position picked by the `i`-th selection of a
/// window starting at cursor value `c0`, over `n` healthy backends.
pub open spec fn rr_index(c0: nat, i: nat, n: nat) -> nat
    recommends
        0 < n,
{
    (c0 + i) % n
}

/// How often position `j` is picked during the first `m` selections of
/// a window starting at cursor value `c0`, over `n` healthy backends.
pub open spec fn rr_count(c0: nat, m: nat, n: nat, j: nat) -> nat
    decreases m,
{
    if m == 0 {
        0
    } else {
        rr_count(c0, (m - 1) as nat, n, j) + if rr_index(c0, (m - 1) as nat, n) == j {
            1nat
        } else {
            0nat
        }
    }
}

/// Number of selections a window must make before it first reaches
/// position `j`: the cyclic distance from `c0 % n` to `j`.
pub open spec fn rr_offset(c0: nat, n: nat, j: nat) -> nat
    recommends
        0 < n,
{
    ((j + n - (c0 % n)) % (n as int)) as nat
}

/// Selection `i` picks position `j` exactly when `i` lands on `j`'s
/// offset modulo the cycle length.
proof fn lemma_rr_hit(c0: nat, i: nat, n: nat, j: nat)
    requires
        0 < n,
        j < n,
    ensures
        rr_index(c0, i, n) == j <==> i % n == rr_offset(c0, n, j),
{
    let ni = n as int;
    let a = (c0 as int) % ni;
    let b = (i as int) % ni;
    lemma_mod_division_less_than_divisor(c0 as int, ni);
    lemma_mod_division_less_than_divisor(i as int, ni);
    lemma_add_mod_noop(c0 as int, i as int, ni);
    if a + b < ni {
        lemma_small_mod((a + b) as nat, n);
    } else {
        lemma_mod_add_multiples_vanish(a + b - ni, ni);
        lemma_small_mod((a + b - ni) as nat, n);
    }
    let e = (j as int) + ni - a;
    if e < ni {
        lemma_small_mod(e as nat, n);
    } else {
        lemma_mod_add_multiples_vanish(e - ni, ni);
        lemma_small_mod((e - ni) as nat, n);
    }
}

/// Exact count: during `m` selections, position `j` is picked once per
/// full cycle, plus once more if the trailing partial cycle is long
/// enough to reach `j`'s offset.
proof fn lemma_rr_count_characterized(c0: nat, m: nat, n: nat, j: nat)
    requires
        0 < n,
        j < n,
    ensures
        rr_count(c0, m, n, j) == m / n + if rr_offset(c0, n, j) < m % n {
            1nat
        } else {
            0nat
        },
    decreases m,
{
    let ni = n as int;
    if m == 0 {
        lemma_div_of0(ni);
        lemma_small_mod(0, n);
    } else {
        let m1 = (m - 1) as nat;
        lemma_rr_count_characterized(c0, m1, n, j);
        lemma_rr_hit(c0, m1, n, j);
        lemma_mod_division_less_than_divisor((c0 as int) % ni, ni);
        lemma_mod_division_less_than_divisor((j + n) - (c0 % n), ni);
        let q1 = m1 / n;
        let r1 = m1 % n;
        lemma_fundamental_div_mod(m1 as int, ni);
        lemma_mod_division_less_than_divisor(m1 as int, ni);
        if r1 + 1 < n {
            assert(m as int == (q1 as int) * ni + (r1 as int + 1));
            lemma_fundamental_div_mod_converse_mod(m as int, ni, q1 as int, r1 as int + 1);
            lemma_fundamental_div_mod_converse_div(m as int, ni, q1 as int, r1 as int + 1);
        } else {
            assert((q1 as int + 1) * ni == (q1 as int) * ni + ni) by (nonlinear_arith);
            assert(m as int == (q1 as int + 1) * ni + 0);
            lemma_fundamental_div_mod_converse_mod(m as int, ni, q1 as int + 1, 0);
            lemma_fundamental_div_mod_converse_div(m as int, ni, q1 as int + 1, 0);
        }
    }
}

/// Round-robin fairness. Over any window of `m` selections with a
/// stable healthy subsequence of length `n` and a cursor that does not
/// wrap, every position — hence every healthy backend — is picked at
/// least `m / n` times and at most `m / n + 1` times; when `n` divides
/// `m`, exactly `m / n` times. (A window whose cursor wraps past the
/// largest counter value re-enters at zero and may skip part of one
/// cycle, so such windows are left out.)
pub proof fn lemma_round_robin_fair(c0: nat, m: nat, n: nat, j: nat)
    requires
        0 < n,
        j < n,
    ensures
        m / n <= rr_count(c0, m, n, j),
        rr_count(c0, m, n, j) <= m / n + 1,
        m % n == 0 ==> rr_count(c0, m, n, j) == m / n,
{
    lemma_rr_count_characterized(c0, m, n, j);
}

/// Cursor advance: one step of unsigned modular arithmetic, wrapping
/// at the largest counter value instead of overflowing.
pub open spec fn wrapping_inc(c: u64) -> u64 {
    if c == u64::MAX {
        0
    } else {
        (c + 1) as u64
    }
}

} // verus!
