//! Row-major traces and the height discipline: a trace's height is the
//! configured fixed shape, or the least power of two that holds the
//! natural row count; a fixed shape too small for its rows is a fatal
//! configuration error, never a truncation.

use vstd::arithmetic::power2::{
    lemma2_to64, lemma_pow2_adds, lemma_pow2_pos, lemma_pow2_strictly_increases, pow2,
};
use vstd::prelude::*;

verus! {

/// A row-major table of field representatives; `width` columns.
pub struct Trace {
    pub values: Vec<u32>,
    pub width: usize,
}

impl Trace {
    /// The values fill whole rows.
    pub open spec fn wf(&self) -> bool {
        self.width > 0 && (self.values@.len() as int) % (self.width as int) == 0
    }

    /// The number of rows.
    pub open spec fn height(&self) -> int {
        (self.values@.len() as int) / (self.width as int)
    }
}

/// The least power of two that is at least `max(n, 1)`.
pub open spec fn next_pow2(n: nat) -> nat
    decreases n,
{
    if n <= 1 {
        1
    } else {
        2 * next_pow2(((n + 1) / 2) as nat)
    }
}

/// The height a table with `n_rows` natural rows is padded to: the fixed
/// shape when one is configured, the least power of two otherwise.
pub open spec fn padded_height(n_rows: nat, fixed_log2: Option<usize>) -> nat {
    match fixed_log2 {
        Option::Some(p) => pow2(p as nat),
        Option::None => next_pow2(n_rows),
    }
}

/// Whether a padded table of the given width fits the machine, and the
/// fixed shape, when one is configured, is not exceeded.
pub open spec fn height_ok(n_rows: nat, fixed_log2: Option<usize>, width: nat) -> bool {
    &&& (match fixed_log2 {
        Option::Some(p) => n_rows <= pow2(p as nat),
        Option::None => true,
    })
    &&& width * padded_height(n_rows, fixed_log2) <= usize::MAX
}

/// `pow2` does not decrease.
proof fn lemma_pow2_le(e1: nat, e2: nat)
    requires
        e1 <= e2,
    ensures
        pow2(e1) <= pow2(e2),
{
    if e1 < e2 {
        lemma_pow2_strictly_increases(e1, e2);
    }
}

/// A strictly smaller power has a strictly smaller exponent.
proof fn lemma_pow2_lt_inv(e1: nat, e2: nat)
    requires
        pow2(e1) < pow2(e2),
    ensures
        e1 < e2,
{
    if e1 >= e2 {
        lemma_pow2_le(e2, e1);
    }
}

/// Row counts are always exact powers of two: absent a fixed shape, the
/// padded height is the least power of two at least `max(n, 1)`.
pub proof fn lemma_next_pow2_exact(n: nat)
    ensures
        exists|k: nat| next_pow2(n) == #[trigger] pow2(k),
        next_pow2(n) >= n,
        next_pow2(n) >= 1,
        n >= 1 ==> next_pow2(n) < 2 * n,
    decreases n,
{
    if n <= 1 {
        lemma2_to64();
        assert(next_pow2(n) == pow2(0));
    } else {
        let m = ((n + 1) / 2) as nat;
        vstd::arithmetic::div_mod::lemma_fundamental_div_mod(n as int + 1, 2);
        assert(1 <= m < n);
        assert(2 * m == n || 2 * m == n + 1);
        lemma_next_pow2_exact(m);
        let k = choose|k: nat| next_pow2(m) == #[trigger] pow2(k);
        lemma_pow2_adds(k, 1);
        lemma2_to64();
        assert(next_pow2(n) == 2 * pow2(k) == pow2(k + 1));
        // minimality: next_pow2(n) == 2 * next_pow2(m) < 2 * n
        assert(next_pow2(m) < 2 * m);
        if 2 * m == n + 1 {
            // n odd: rule out next_pow2(m) == 2 * m - 1 == n, an odd power of two > 1
            if next_pow2(m) == 2 * m - 1 {
                assert(m >= 2);
                if k == 0 {
                    assert(next_pow2(m) == 1);
                } else {
                    lemma_pow2_adds((k - 1) as nat, 1);
                    assert(pow2(k) == 2 * pow2((k - 1) as nat));
                }
            }
        }
    }
}

/// Two powers of two at least `max(n, 1)` and below `2 * max(n, 1)`
/// coincide, so the loop below lands exactly on `next_pow2`.
proof fn lemma_next_pow2_unique(n: nat, k: nat)
    requires
        n >= 1,
        pow2(k) >= n,
        k == 0 || pow2((k - 1) as nat) < n,
    ensures
        pow2(k) == next_pow2(n),
{
    lemma_next_pow2_exact(n);
    let kk = choose|kk: nat| next_pow2(n) == #[trigger] pow2(kk);
    if k == 0 {
        lemma2_to64();
        assert(pow2(0) == 1);
        assert(n == 1);
        assert(next_pow2(1) == 1);
    } else {
        assert(pow2((k - 1) as nat) < next_pow2(n));
        lemma_pow2_lt_inv((k - 1) as nat, kk);
        lemma_pow2_le(k, kk);
        lemma_pow2_adds((k - 1) as nat, 1);
        lemma2_to64();
        assert(pow2(k) == 2 * pow2((k - 1) as nat));
        assert(next_pow2(n) < 2 * n <= 2 * pow2(k));
        lemma_pow2_adds(k, 1);
        lemma_pow2_lt_inv(kk, k + 1);
        lemma_pow2_le(kk, k);
    }
}

/// Row counts are always exact powers of two: the padded height is the
/// configured fixed shape, or else the least power of two that holds
/// `max(n_rows, 1)`.
pub proof fn lemma_padded_height_power_of_two(n_rows: nat, fixed_log2: Option<usize>)
    ensures
        exists|k: nat| padded_height(n_rows, fixed_log2) == #[trigger] pow2(k),
        fixed_log2 is None ==> padded_height(n_rows, fixed_log2) >= n_rows && padded_height(
            n_rows,
            fixed_log2,
        ) >= 1,
        fixed_log2 is None && n_rows >= 1 ==> padded_height(n_rows, fixed_log2) < 2 * n_rows,
{
    match fixed_log2 {
        Option::Some(p) => {
            assert(padded_height(n_rows, fixed_log2) == pow2(p as nat));
        },
        Option::None => {
            lemma_next_pow2_exact(n_rows);
        },
    }
}

/// The error a too-small fixed shape raises: the natural row count does
/// not fit under the configured power of two.
#[derive(Clone, Copy, PartialEq, Eq, Structural, Debug)]
pub struct FixedShapeExceeded;

/// The padded height of a table with `n_rows` natural rows: `2^p` under a
/// fixed shape of `p`, the least power of two at least `max(n_rows, 1)`
/// otherwise.
pub fn next_power_of_two(n_rows: usize, fixed_log2: Option<usize>) -> (h: usize)
    requires
        height_ok(n_rows as nat, fixed_log2, 1),
    ensures
        h == padded_height(n_rows as nat, fixed_log2),
{
    match fixed_log2 {
        Option::Some(p) => {
            let mut r: usize = 1;
            let mut i: usize = 0;
            proof {
                lemma2_to64();
            }
            while i < p
                invariant
                    0 <= i <= p,
                    r == pow2(i as nat),
                    pow2(p as nat) <= usize::MAX,
                decreases p - i,
            {
                proof {
                    lemma_pow2_adds(i as nat, 1);
                    lemma2_to64();
                    lemma_pow2_le((i + 1) as nat, p as nat);
                }
                r = r * 2;
                i = i + 1;
            }
            r
        },
        Option::None => {
            let ghost np = next_pow2(n_rows as nat);
            proof {
                lemma_next_pow2_exact(n_rows as nat);
            }
            let mut r: usize = 1;
            let ghost mut k: nat = 0;
            proof {
                lemma2_to64();
            }
            while r < n_rows
                invariant
                    r == pow2(k),
                    k == 0 || pow2((k - 1) as nat) < n_rows,
                    r <= np,
                    np >= n_rows,
                    np == next_pow2(n_rows as nat),
                    np <= usize::MAX,
                    exists|kk: nat| np == #[trigger] pow2(kk),
                decreases np - r,
            {
                proof {
                    let kk = choose|kk: nat| np == #[trigger] pow2(kk);
                    lemma_pow2_lt_inv(k, kk);
                    lemma_pow2_adds(k, 1);
                    lemma2_to64();
                    lemma_pow2_le(k + 1, kk);
                    lemma_pow2_pos(k);
                }
                r = r * 2;
                proof {
                    k = k + 1;
                }
            }
            proof {
                if n_rows == 0 {
                    assert(r == 1 == np);
                } else {
                    lemma_next_pow2_unique(n_rows as nat, k);
                }
            }
            r
        },
    }
}

/// Pads like [`next_power_of_two`], but a fixed shape too small for the
/// rows is reported as the fatal configuration error it is — the rows are
/// never truncated to fit.
pub fn checked_next_power_of_two(n_rows: usize, fixed_log2: Option<usize>) -> (h: Result<
    usize,
    FixedShapeExceeded,
>)
    requires
        (match fixed_log2 {
            Option::Some(p) => pow2(p as nat) <= usize::MAX,
            Option::None => next_pow2(n_rows as nat) <= usize::MAX,
        }),
    ensures
        h is Err <==> !height_ok(n_rows as nat, fixed_log2, 1),
        h matches Ok(v) ==> v == padded_height(n_rows as nat, fixed_log2) && v
            >= n_rows,
{
    match fixed_log2 {
        Option::Some(p) => {
            let cap = next_power_of_two(0, Some(p));
            if n_rows > cap {
                Err(FixedShapeExceeded)
            } else {
                Ok(cap)
            }
        },
        Option::None => {
            proof {
                lemma_next_pow2_exact(n_rows as nat);
            }
            Ok(next_power_of_two(n_rows, None))
        },
    }
}

} // verus!
