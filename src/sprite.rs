//! Where a sprite's bits land on the wrapping display.
use crate::semantics::{sprite_dx, sprite_dy};
use vstd::arithmetic::div_mod::{lemma_fundamental_div_mod, lemma_fundamental_div_mod_converse};
use vstd::prelude::*;

verus! {

/// The pixel that column `col` of row `row` of a sprite placed at `(x, y)` lands on.
pub open spec fn pixel_index(x: int, y: int, row: int, col: int) -> int {
    (x + col) % 64 + 64 * ((y + row) % 32)
}

/// `(a - x) % m == d` with `a` in `[0, m)` and `d` in `[0, m)` pins `a` to `(x + d) % m`.
proof fn lemma_wrap_offset(a: int, x: int, d: int, m: int)
    requires
        m > 0,
        0 <= a < m,
        0 <= d < m,
    ensures
        ((a - x) % m == d) <==> (a == (x + d) % m),
{
    lemma_fundamental_div_mod(a - x, m);
    lemma_fundamental_div_mod(x + d, m);
    if (a - x) % m == d {
        let k = (a - x) / m;
        assert(x + d == (-k) * m + a) by (nonlinear_arith)
            requires
                a - x == m * k + d,
        ;
        lemma_fundamental_div_mod_converse(x + d, m, -k, a);
    }
    if a == (x + d) % m {
        let q = (x + d) / m;
        assert(a - x == (-q) * m + d) by (nonlinear_arith)
            requires
                x + d == m * q + a,
        ;
        lemma_fundamental_div_mod_converse(a - x, m, -q, d);
    }
}

/// A pixel index splits into its column and its row.
proof fn lemma_split_index(p: int)
    requires
        0 <= p < 2048,
    ensures
        0 <= p % 64 < 64,
        0 <= p / 64 < 32,
        p == p % 64 + 64 * (p / 64),
{
    lemma_fundamental_div_mod(p, 64);
}

/// Column `col` of row `row` lands on exactly one pixel, `pixel_index(x, y, row, col)`,
/// and that pixel lies `col` columns right of and `row` rows below `(x, y)`.
pub proof fn lemma_pixel_index(x: int, y: int, row: int, col: int)
    requires
        0 <= x,
        0 <= y,
        0 <= row < 32,
        0 <= col < 64,
    ensures
        0 <= pixel_index(x, y, row, col) < 2048,
        sprite_dx(x, pixel_index(x, y, row, col)) == col,
        sprite_dy(y, pixel_index(x, y, row, col)) == row,
        forall|q: int|
            0 <= q < 2048 && sprite_dx(x, q) == col && sprite_dy(y, q) == row ==> q == pixel_index(
                x,
                y,
                row,
                col,
            ),
{
    let a = (x + col) % 64;
    let b = (y + row) % 32;
    let p = pixel_index(x, y, row, col);
    assert(0 <= a < 64 && 0 <= b < 32);
    assert(0 <= p < 2048);
    lemma_fundamental_div_mod_converse(p, 64, b, a);
    lemma_wrap_offset(a, x, col, 64);
    lemma_wrap_offset(b, y, row, 32);
    assert forall|q: int|
        0 <= q < 2048 && sprite_dx(x, q) == col && sprite_dy(y, q) == row implies q == p by {
        lemma_split_index(q);
        lemma_wrap_offset(q % 64, x, col, 64);
        lemma_wrap_offset(q / 64, y, row, 32);
    }
}

} // verus!
