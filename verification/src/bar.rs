//! The geometry of the progress bar.
//!
//! The bar is `width` cells wide and shows the share of the time that is left.
//! The share is `remaining / total`, taken as `1` where `remaining` exceeds
//! `total`. A timer of no length at all has an empty bar. The whole cells that
//! are filled are counted by [`fill_cells`]; the part of a cell that is left
//! over is shown in the next cell as one of eight glyphs, chosen by
//! [`sub_index`].

use vstd::prelude::*;
use vstd::string::*;

verus! {

/// `remaining`, but no more than `total`.
pub open spec fn clamped(remaining: nat, total: nat) -> nat {
    if remaining > total {
        total
    } else {
        remaining
    }
}

/// The number of cells that are wholly filled: `width * remaining / total`,
/// rounded down.
pub open spec fn fill_cells(remaining: nat, total: nat, width: nat) -> nat {
    if total == 0 {
        0
    } else {
        (width * clamped(remaining, total)) / total
    }
}

/// What the wholly filled cells leave over, in units of `1 / total` of a cell.
pub open spec fn fill_rest(remaining: nat, total: nat, width: nat) -> nat {
    if total == 0 {
        0
    } else {
        (width * clamped(remaining, total)) % total
    }
}

/// The eighths of a cell that are left over, rounded to the nearest whole
/// number (a half goes up) and taken modulo eight.
pub open spec fn sub_index(remaining: nat, total: nat, width: nat) -> nat {
    if total == 0 {
        0
    } else {
        ((16 * fill_rest(remaining, total, width) + total) / (2 * total)) % 8
    }
}

/// The glyph that fills `index` eighths of a cell from the left; a blank for
/// no eighth and for any index above seven.
pub open spec fn sub_glyph(index: nat) -> char {
    if index == 1 {
        '▏'
    } else if index == 2 {
        '▎'
    } else if index == 3 {
        '▍'
    } else if index == 4 {
        '▌'
    } else if index == 5 {
        '▋'
    } else if index == 6 {
        '▊'
    } else if index == 7 {
        '▉'
    } else {
        ' '
    }
}

/// The blank cells to the left of a label of `len` characters that is centred
/// in `width` cells; none where the label does not fit.
pub open spec fn side_left(width: nat, len: nat) -> nat {
    if width >= len {
        ((width - len) / 2) as nat
    } else {
        0
    }
}

/// The cells to the right of the label, the last cell of the bar included: one
/// more than to the left where an odd number is to be shared.
pub open spec fn side_right(width: nat, len: nat) -> nat {
    if width >= len {
        (((width - len) / 2) + ((width - len) % 2)) as nat
    } else {
        0
    }
}

/// The filled cells are the integer part of `width * remaining / total`: what
/// is filled does not exceed the share, and one cell more would.
pub proof fn lemma_fill_cells_is_floor(remaining: nat, total: nat, width: nat)
    requires
        total > 0,
    ensures
        fill_cells(remaining, total, width) * total <= width * clamped(remaining, total),
        width * clamped(remaining, total) < (fill_cells(remaining, total, width) + 1) * total,
        width * clamped(remaining, total) == fill_cells(remaining, total, width) * total
            + fill_rest(remaining, total, width),
        fill_rest(remaining, total, width) < total,
        fill_cells(remaining, total, width) <= width,
{
    let p = width * clamped(remaining, total);
    let f = fill_cells(remaining, total, width);
    assert(p == total * (p / total) + p % total) by {
        vstd::arithmetic::div_mod::lemma_fundamental_div_mod(p as int, total as int);
    }
    assert(0 <= p % total < total);
    assert(f * total == total * (p / total)) by (nonlinear_arith)
        requires
            f == p / total,
    ;
    assert((f + 1) * total == f * total + total) by (nonlinear_arith);
    assert(p <= width * total) by (nonlinear_arith)
        requires
            p == width * clamped(remaining, total),
            clamped(remaining, total) <= total,
    ;
    assert(f <= width) by (nonlinear_arith)
        requires
            f * total <= width * total,
            total > 0,
    ;
}

/// The glyph index is the nearest whole number of eighths to the part of a
/// cell that is left over, a half going up, taken modulo eight: there is a `k`
/// with `k - 1/2 <= 8 * rest / total < k + 1/2`, and the index is `k % 8`.
pub proof fn lemma_sub_index_is_rounded(remaining: nat, total: nat, width: nat) -> (k: nat)
    requires
        total > 0,
    ensures
        k <= 8,
        2 * k * total <= 16 * fill_rest(remaining, total, width) + total,
        16 * fill_rest(remaining, total, width) + total < 2 * (k + 1) * total,
        sub_index(remaining, total, width) == k % 8,
        sub_index(remaining, total, width) < 8,
{
    let rest = fill_rest(remaining, total, width);
    let n = 16 * rest + total;
    let d = 2 * total;
    let k = n / d;
    assert(rest < total) by {
        lemma_fill_cells_is_floor(remaining, total, width);
    }
    assert(n == d * (n / d) + n % d) by {
        vstd::arithmetic::div_mod::lemma_fundamental_div_mod(n as int, d as int);
    }
    assert(0 <= n % d < d);
    assert(2 * k * total == d * (n / d)) by (nonlinear_arith)
        requires
            k == n / d,
            d == 2 * total,
    ;
    assert(2 * (k + 1) * total == 2 * k * total + d) by (nonlinear_arith)
        requires
            d == 2 * total,
    ;
    assert(k <= 8) by (nonlinear_arith)
        requires
            2 * k * total <= n,
            n < 17 * total,
            total > 0,
    ;
    k
}

/// With less time left, no more of the bar is filled.
pub proof fn lemma_fill_cells_monotonic(earlier: nat, later: nat, total: nat, width: nat)
    requires
        later <= earlier,
    ensures
        fill_cells(later, total, width) <= fill_cells(earlier, total, width),
{
    if total > 0 {
        let a = width * clamped(later, total);
        let b = width * clamped(earlier, total);
        assert(a <= b) by (nonlinear_arith)
            requires
                a == width * clamped(later, total),
                b == width * clamped(earlier, total),
                clamped(later, total) <= clamped(earlier, total),
        ;
        vstd::arithmetic::div_mod::lemma_div_is_ordered(a as int, b as int, total as int);
    }
}

/// With no time left nothing is filled, and with all of it left, or more, the
/// whole bar is.
pub proof fn lemma_fill_cells_ends(remaining: nat, total: nat, width: nat)
    ensures
        fill_cells(0, total, width) == 0,
        sub_index(0, total, width) == 0,
        total > 0 && remaining >= total ==> fill_cells(remaining, total, width) == width,
        total > 0 && remaining >= total ==> sub_index(remaining, total, width) == 0,
{
    if total > 0 {
        assert(width * 0 == 0);
        assert(0nat / total == 0 && 0nat % total == 0) by (nonlinear_arith)
            requires
                total > 0,
        ;
        assert((16 * 0 + total) / (2 * total) == 0) by (nonlinear_arith)
            requires
                total > 0,
        ;
        if remaining >= total {
            vstd::arithmetic::div_mod::lemma_div_multiples_vanish(width as int, total as int);
            vstd::arithmetic::div_mod::lemma_mod_multiples_basic(width as int, total as int);
            assert(width * total == total * width) by (nonlinear_arith);
        }
    }
}

/// The label and the cells on both sides of it make up the bar, and the sides
/// differ by one cell at most.
pub proof fn lemma_sides_share_the_bar(width: nat, len: nat)
    requires
        width >= len,
    ensures
        side_left(width, len) + len + side_right(width, len) == width,
        side_left(width, len) <= side_right(width, len) <= side_left(width, len) + 1,
{
}

/// The number of cells that are wholly filled.
pub fn fill_width(remaining: u64, total: u64, width: u32) -> (r: u32)
    ensures
        r == fill_cells(remaining as nat, total as nat, width as nat),
{
    if total == 0 {
        return 0;
    }
    let part: u64 = if remaining > total {
        total
    } else {
        remaining
    };
    proof {
        lemma_fill_cells_is_floor(remaining as nat, total as nat, width as nat);
        assert(width * part <= 0xffff_ffff * 0xffff_ffff_ffff_ffff) by (nonlinear_arith)
            requires
                width <= 0xffff_ffff,
                part <= 0xffff_ffff_ffff_ffff,
        ;
    }
    let product: u128 = (width as u128) * (part as u128);
    let cells: u128 = product / (total as u128);
    cells as u32
}

/// The index of the glyph that shows the part of a cell that is left over.
pub fn sub_width(remaining: u64, total: u64, width: u32) -> (r: u32)
    ensures
        r == sub_index(remaining as nat, total as nat, width as nat),
{
    if total == 0 {
        return 0;
    }
    let part: u64 = if remaining > total {
        total
    } else {
        remaining
    };
    proof {
        let k = lemma_sub_index_is_rounded(remaining as nat, total as nat, width as nat);
        lemma_fill_cells_is_floor(remaining as nat, total as nat, width as nat);
        assert(width * part <= 0xffff_ffff * 0xffff_ffff_ffff_ffff) by (nonlinear_arith)
            requires
                width <= 0xffff_ffff,
                part <= 0xffff_ffff_ffff_ffff,
        ;
    }
    let product: u128 = (width as u128) * (part as u128);
    let rest: u128 = product % (total as u128);
    let eighths: u128 = (16 * rest + (total as u128)) / (2 * (total as u128));
    (eighths % 8) as u32
}

/// The glyph for `sub_width` eighths of a cell, as text.
pub fn sub_char(sub_width: u32) -> (r: &'static str)
    ensures
        r@ == seq![sub_glyph(sub_width as nat)],
{
    proof {
        reveal_strlit("▏");
        reveal_strlit("▎");
        reveal_strlit("▍");
        reveal_strlit("▌");
        reveal_strlit("▋");
        reveal_strlit("▊");
        reveal_strlit("▉");
        reveal_strlit(" ");
    }
    let r: &'static str = match sub_width {
        1 => "▏",
        2 => "▎",
        3 => "▍",
        4 => "▌",
        5 => "▋",
        6 => "▊",
        7 => "▉",
        _ => " ",
    };
    assert(r@ =~= seq![sub_glyph(sub_width as nat)]);
    r
}

/// The blank cells to the left of a label of `len` characters.
pub fn side_space_left(width: u32, len: usize) -> (r: u32)
    ensures
        r == side_left(width as nat, len as nat),
{
    if width as usize >= len {
        (width - len as u32) / 2
    } else {
        0
    }
}

/// The cells to the right of a label of `len` characters.
pub fn side_space_right(width: u32, len: usize) -> (r: u32)
    ensures
        r == side_right(width as nat, len as nat),
{
    if width as usize >= len {
        (width - len as u32) / 2 + (width - len as u32) % 2
    } else {
        0
    }
}

} // verus!
