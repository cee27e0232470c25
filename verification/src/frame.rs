//! One frame of the countdown: a progress bar between two border rows.
//!
//! A frame is text for a console that is `width` cells wide. It moves the
//! cursor home, draws the upper border, the bar and the lower border, each
//! `width` cells wide and ended by a line feed, and erases what an earlier,
//! taller frame may have left below.
//!
//! The bar starts in negative rendition and carries the label in its middle.
//! Its last cell is the terminator. The sequence that switches back to
//! positive rendition stands before the cell whose index is the number of
//! filled cells, and before the terminator. Outside the label, the cell at
//! that index shows the part of a cell that is left over.

use crate::ansi::{
    clear_line, clear_line_text, cursor_position_text, set_cursor_position, text_mode,
    text_mode_text, TextMode,
};
use crate::bar::{
    fill_cells, fill_width, side_left, side_space_left, sub_char, sub_glyph, sub_index, sub_width,
};
use crate::label::{label, label_text};
use vstd::prelude::*;
use vstd::string::*;

verus! {

/// The glyph of the upper border.
pub open spec fn upper_border() -> char {
    '▁'
}

/// The glyph of the lower border.
pub open spec fn lower_border() -> char {
    '▔'
}

/// The terminator of a bar that is filled to the end.
pub open spec fn solid_terminator() -> char {
    '█'
}

/// The terminator of any other bar.
pub open spec fn boundary_terminator() -> char {
    '▕'
}

/// `n` times the same glyph.
pub open spec fn repeated(glyph: char, n: nat) -> Seq<char> {
    Seq::new(n, |i: int| glyph)
}

/// The glyph in cell `i` of a bar of `width` cells with `fill` filled cells
/// and `sub` eighths left over.
pub open spec fn bar_cell(label: Seq<char>, fill: nat, sub: nat, width: nat, i: int) -> char {
    let left = side_left(width, label.len());
    if i == width - 1 {
        if fill == width {
            solid_terminator()
        } else {
            boundary_terminator()
        }
    } else if left <= i < left + label.len() {
        label[i - left]
    } else if i == fill {
        sub_glyph(sub)
    } else {
        ' '
    }
}

/// Whether the switch to positive rendition stands before cell `i`.
pub open spec fn switches_before(fill: nat, width: nat, i: int) -> bool {
    i == fill || i == width - 1
}

/// Cell `i` of the bar as it is written: the glyph, after the switch to
/// positive rendition where that stands before it.
pub open spec fn bar_piece(label: Seq<char>, fill: nat, sub: nat, width: nat, i: int) -> Seq<
    char,
> {
    if switches_before(fill, width, i) {
        text_mode_text(TextMode::Positive) + seq![bar_cell(label, fill, sub, width, i)]
    } else {
        seq![bar_cell(label, fill, sub, width, i)]
    }
}

/// The first `n` cells of the bar as they are written.
pub open spec fn bar_pieces(label: Seq<char>, fill: nat, sub: nat, width: nat, n: nat) -> Seq<
    char,
>
    decreases n,
{
    if n == 0 {
        Seq::empty()
    } else {
        bar_pieces(label, fill, sub, width, (n - 1) as nat) + bar_piece(
            label,
            fill,
            sub,
            width,
            n - 1,
        )
    }
}

/// The bar as it is written: negative rendition, then the cells. A bar of no
/// width is the two switches alone.
pub open spec fn bar_row(label: Seq<char>, fill: nat, sub: nat, width: nat) -> Seq<char> {
    if width == 0 {
        text_mode_text(TextMode::Negative) + text_mode_text(TextMode::Positive)
    } else {
        text_mode_text(TextMode::Negative) + bar_pieces(label, fill, sub, width, width)
    }
}

/// The frame for `remaining` of `total` milliseconds on a console of `width`
/// cells.
pub open spec fn frame_text(remaining: nat, total: nat, width: nat) -> Seq<char> {
    cursor_position_text(1, 1) + text_mode_text(TextMode::Bold) + repeated(
        upper_border(),
        width,
    ) + seq!['\n'] + bar_row(
        label_text(remaining),
        fill_cells(remaining, total, width),
        sub_index(remaining, total, width),
        width,
    ) + seq!['\n'] + repeated(lower_border(), width) + seq!['\n'] + clear_line_text()
        + text_mode_text(TextMode::DisableBold)
}

/// The glyphs of all cells of the bar, without the switches between them.
pub open spec fn bar_cells(label: Seq<char>, fill: nat, sub: nat, width: nat) -> Seq<char> {
    Seq::new(width, |i: int| bar_cell(label, fill, sub, width, i))
}

/// Before the terminator, the cells as they are written are the glyphs, cut
/// in two by the switch to positive rendition at the first cell that is not
/// filled.
proof fn lemma_bar_pieces_layout(label: Seq<char>, fill: nat, sub: nat, width: nat, n: nat)
    requires
        n < width,
    ensures
        fill < n ==> bar_pieces(label, fill, sub, width, n) == bar_cells(
            label,
            fill,
            sub,
            width,
        ).subrange(0, fill as int) + text_mode_text(TextMode::Positive) + bar_cells(
            label,
            fill,
            sub,
            width,
        ).subrange(fill as int, n as int),
        fill >= n ==> bar_pieces(label, fill, sub, width, n) == bar_cells(
            label,
            fill,
            sub,
            width,
        ).subrange(0, n as int),
    decreases n,
{
    let cells = bar_cells(label, fill, sub, width);
    let positive = text_mode_text(TextMode::Positive);
    if n == 0 {
        assert(bar_pieces(label, fill, sub, width, n) =~= cells.subrange(0, 0));
    } else {
        let m = (n - 1) as nat;
        lemma_bar_pieces_layout(label, fill, sub, width, m);
        assert(seq![bar_cell(label, fill, sub, width, m as int)] =~= cells.subrange(
            m as int,
            n as int,
        ));
        if fill < m {
            assert(cells.subrange(0, fill as int) + positive + cells.subrange(fill as int, m as int)
                + cells.subrange(m as int, n as int) =~= cells.subrange(0, fill as int) + positive
                + cells.subrange(fill as int, n as int));
        } else if fill == m {
            assert(cells.subrange(0, m as int) + (positive + cells.subrange(m as int, n as int))
                =~= cells.subrange(0, fill as int) + positive + cells.subrange(
                fill as int,
                n as int,
            ));
        } else {
            assert(cells.subrange(0, m as int) + cells.subrange(m as int, n as int)
                =~= cells.subrange(0, n as int));
        }
    }
}

/// The bar is written as its cells, in negative rendition up to the cell
/// whose index is the number of filled cells and in positive rendition from
/// there on. The terminator is always in positive rendition, so a bar that
/// is filled up to it, or further, has the one switch before it.
pub proof fn lemma_bar_row_layout(label: Seq<char>, fill: nat, sub: nat, width: nat)
    requires
        width > 0,
    ensures
        bar_cells(label, fill, sub, width).len() == width,
        fill < width - 1 ==> bar_row(label, fill, sub, width) == text_mode_text(TextMode::Negative)
            + bar_cells(label, fill, sub, width).subrange(0, fill as int) + text_mode_text(
            TextMode::Positive,
        ) + bar_cells(label, fill, sub, width).subrange(fill as int, width - 1) + text_mode_text(
            TextMode::Positive,
        ) + bar_cells(label, fill, sub, width).subrange(width - 1, width as int),
        fill >= width - 1 ==> bar_row(label, fill, sub, width) == text_mode_text(
            TextMode::Negative,
        ) + bar_cells(label, fill, sub, width).subrange(0, width - 1) + text_mode_text(
            TextMode::Positive,
        ) + bar_cells(label, fill, sub, width).subrange(width - 1, width as int),
{
    let cells = bar_cells(label, fill, sub, width);
    let negative = text_mode_text(TextMode::Negative);
    let positive = text_mode_text(TextMode::Positive);
    let last = (width - 1) as nat;
    lemma_bar_pieces_layout(label, fill, sub, width, last);
    assert(seq![bar_cell(label, fill, sub, width, last as int)] =~= cells.subrange(
        last as int,
        width as int,
    ));
    let before = bar_pieces(label, fill, sub, width, last);
    assert(bar_row(label, fill, sub, width) == negative + (before + (positive + cells.subrange(
        last as int,
        width as int,
    ))));
    if fill < last {
        assert(negative + (before + (positive + cells.subrange(last as int, width as int)))
            =~= negative + cells.subrange(0, fill as int) + positive + cells.subrange(
            fill as int,
            last as int,
        ) + positive + cells.subrange(last as int, width as int));
    } else {
        assert(negative + (before + (positive + cells.subrange(last as int, width as int)))
            =~= negative + cells.subrange(0, last as int) + positive + cells.subrange(
            last as int,
            width as int,
        ));
    }
}

/// Appends `n` times the one glyph of `glyph`.
fn push_repeated(out: &mut String, glyph: &str, n: u32)
    requires
        glyph@.len() == 1,
    ensures
        final(out)@ == old(out)@ + repeated(glyph@[0], n as nat),
{
    let ghost before = out@;
    let mut i: u32 = 0;
    assert(out@ =~= before + repeated(glyph@[0], 0));
    while i < n
        invariant
            i <= n,
            glyph@.len() == 1,
            out@ == before + repeated(glyph@[0], i as nat),
        decreases n - i,
    {
        out.append(glyph);
        i = i + 1;
        assert(out@ =~= before + repeated(glyph@[0], i as nat));
    }
}

/// The glyph in cell `i` of the bar, as text.
fn cell<'a>(label: &'a str, len: usize, fill: u32, sub: u32, width: u32, i: u32) -> (r: &'a str)
    requires
        len == label@.len(),
        i < width,
    ensures
        r@ == seq![bar_cell(label@, fill as nat, sub as nat, width as nat, i as int)],
{
    proof {
        reveal_strlit("█");
        reveal_strlit("▕");
        reveal_strlit(" ");
    }
    let left: usize = side_space_left(width, len) as usize;
    let at: usize = i as usize;
    if i == width - 1 {
        let r: &'static str = if fill == width {
            "█"
        } else {
            "▕"
        };
        assert(r@ =~= seq![bar_cell(label@, fill as nat, sub as nat, width as nat, i as int)]);
        r
    } else if left <= at && at - left < len {
        let r: &'a str = label.substring_char(at - left, at - left + 1);
        assert(r@ =~= seq![bar_cell(label@, fill as nat, sub as nat, width as nat, i as int)]);
        r
    } else if i == fill {
        sub_char(sub)
    } else {
        let r: &'static str = " ";
        assert(r@ =~= seq![bar_cell(label@, fill as nat, sub as nat, width as nat, i as int)]);
        r
    }
}

/// The bar of `width` cells with `fill` filled cells, `sub` eighths left over
/// and `label` in its middle.
pub fn bar(label: &str, fill: u32, sub: u32, width: u32) -> (r: String)
    ensures
        r@ == bar_row(label@, fill as nat, sub as nat, width as nat),
{
    let len: usize = label.unicode_len();
    let positive: String = text_mode(TextMode::Positive);
    let mut r: String = text_mode(TextMode::Negative);
    if width == 0 {
        r.append(positive.as_str());
        return r;
    }
    let mut i: u32 = 0;
    assert(r@ =~= text_mode_text(TextMode::Negative) + bar_pieces(
        label@,
        fill as nat,
        sub as nat,
        width as nat,
        0,
    ));
    while i < width
        invariant
            i <= width,
            len == label@.len(),
            positive@ == text_mode_text(TextMode::Positive),
            r@ == text_mode_text(TextMode::Negative) + bar_pieces(
                label@,
                fill as nat,
                sub as nat,
                width as nat,
                i as nat,
            ),
        decreases width - i,
    {
        if i == fill || i == width - 1 {
            r.append(positive.as_str());
        }
        r.append(cell(label, len, fill, sub, width, i));
        i = i + 1;
        assert(r@ =~= text_mode_text(TextMode::Negative) + bar_pieces(
            label@,
            fill as nat,
            sub as nat,
            width as nat,
            i as nat,
        ));
    }
    r
}

/// The frame for `remaining` of `total` milliseconds on a console of `width`
/// cells.
pub fn remaining_frame(remaining: u64, total: u64, width: u32) -> (r: String)
    ensures
        r@ == frame_text(remaining as nat, total as nat, width as nat),
{
    proof {
        reveal_strlit("▁");
        reveal_strlit("▔");
        reveal_strlit("\n");
    }
    let text: String = label(remaining);
    let row: String = bar(
        text.as_str(),
        fill_width(remaining, total, width),
        sub_width(remaining, total, width),
        width,
    );
    let mut r: String = set_cursor_position(1, 1);
    r.append(text_mode(TextMode::Bold).as_str());
    push_repeated(&mut r, "▁", width);
    r.append("\n");
    r.append(row.as_str());
    r.append("\n");
    push_repeated(&mut r, "▔", width);
    r.append("\n");
    r.append(clear_line().as_str());
    r.append(text_mode(TextMode::DisableBold).as_str());
    assert(r@ =~= frame_text(remaining as nat, total as nat, width as nat));
    r
}

} // verus!
