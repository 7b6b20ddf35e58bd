use vstd::prelude::*;
use vstd::arithmetic::div_mod::{lemma_fundamental_div_mod, lemma_fundamental_div_mod_converse};
use crate::state::{sprite_col, sprite_row, HEIGHT, PIXELS, WIDTH};

verus! {

/// For `a` and `h` in `[0, m)`: `a` lies `h` places after `v`, counting
/// round a circle of `m` places, exactly when `a` is `v + h` wrapped.
pub proof fn lemma_wrap_offset(a: int, v: int, h: int, m: int)
    requires
        0 < m,
        0 <= a < m,
        0 <= h < m,
    ensures
        ((a - v) % m == h) == (a == (v + h) % m),
{
    lemma_fundamental_div_mod(a - v, m);
    let t = (a - v) / m;
    if (a - v) % m == h {
        assert(v + h == (-t) * m + a) by (nonlinear_arith)
            requires a - v == m * t + h;
        lemma_fundamental_div_mod_converse(v + h, m, -t, a);
    }
    lemma_fundamental_div_mod(v + h, m);
    let q = (v + h) / m;
    if a == (v + h) % m {
        assert(a - v == (-q) * m + h) by (nonlinear_arith)
            requires v + h == m * q + a;
        lemma_fundamental_div_mod_converse(a - v, m, -q, h);
    }
}

/// Subtracting one byte from another modulo 256: the plain difference where
/// there is no borrow, else the difference plus 256.
pub proof fn lemma_byte_sub(a: u8, b: u8)
    ensures
        (256 + a - b) % 256 == if a >= b { a - b } else { 256 + a - b },
{
    if a >= b {
        lemma_fundamental_div_mod_converse(256 + a - b, 256, 1, a - b);
    } else {
        lemma_fundamental_div_mod_converse(256 + a - b, 256, 0, 256 + a - b);
    }
}

/// The pixel that row `h`, column `k` of a sprite placed at `(vx, vy)` lands
/// on.
pub open spec fn pixel_of(vx: u8, vy: u8, h: int, k: int) -> int {
    ((vy + h) % (HEIGHT as int)) * (WIDTH as int) + (vx + k) % (WIDTH as int)
}

/// Row `h`, column `k` of a sprite lands on one pixel of the display, and on
/// no other.
pub proof fn lemma_pixel_of(vx: u8, vy: u8, h: int, k: int)
    requires
        0 <= h < HEIGHT,
        0 <= k < WIDTH,
    ensures
        0 <= pixel_of(vx, vy, h, k) < PIXELS,
        sprite_row(vy, pixel_of(vx, vy, h, k)) == h,
        sprite_col(vx, pixel_of(vx, vy, h, k)) == k,
        forall|p: int|
            0 <= p < PIXELS && #[trigger] sprite_row(vy, p) == h && sprite_col(vx, p) == k
                ==> p == pixel_of(vx, vy, h, k),
{
    let r = (vy + h) % 32;
    let c = (vx + k) % 64;
    let pos = pixel_of(vx, vy, h, k);
    assert(0 <= r < 32 && 0 <= c < 64);
    assert(0 <= pos < 2048) by (nonlinear_arith)
        requires pos == r * 64 + c, 0 <= r < 32, 0 <= c < 64;
    lemma_fundamental_div_mod_converse(pos, 64, r, c);
    lemma_wrap_offset(r, vy as int, h, 32);
    lemma_wrap_offset(c, vx as int, k, 64);
    assert forall|p: int|
        0 <= p < PIXELS && #[trigger] sprite_row(vy, p) == h && sprite_col(vx, p) == k
            implies p == pos by {
        lemma_fundamental_div_mod(p, 64);
        assert(0 <= p / 64 < 32);
        assert(0 <= p % 64 < 64);
        lemma_wrap_offset(p / 64, vy as int, h, 32);
        lemma_wrap_offset(p % 64, vx as int, k, 64);
    }
}

} // verus!
