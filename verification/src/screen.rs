//! Draw commands: the game's rendering output. A tick produces a sequence of
//! `DrawCmd` values instead of touching a display, so the per-tick logic stays
//! pure and a host can hand the commands to any character display.
//!
//! Also holds the positional-digit rendering of a number: most-significant
//! digit first, one column per digit, starting at a given origin cell.

use crate::{HEIGHT, WIDTH};
use vstd::arithmetic::div_mod::{lemma_fundamental_div_mod, lemma_mod_bound};
use vstd::prelude::*;

verus! {

/// The fixed palette a display must distinguish.
#[derive(Clone, Copy, Debug, PartialEq, Eq, Structural)]
pub enum Color {
    Black,
    Red,
    Cyan,
    Yellow,
}

/// One rendering instruction: draw `glyph` at the cell `(col, row)` with the
/// given foreground and background colors.
#[derive(Clone, Copy, Debug, PartialEq, Eq, Structural)]
pub struct DrawCmd {
    pub glyph: char,
    pub col: usize,
    pub row: usize,
    pub foreground: Color,
    pub background: Color,
}

impl DrawCmd {
    /// The command addresses a cell of the board.
    pub open spec fn in_bounds(self) -> bool {
        self.col < WIDTH && self.row < HEIGHT
    }
}

/// The decimal digits of `n`, most significant first. Zero is the single
/// digit `0`.
pub open spec fn digits(n: int) -> Seq<int>
    decreases n,
{
    if n < 10 {
        seq![n]
    } else {
        digits(n / 10).push(n % 10)
    }
}

/// Every digit of a non-negative number lies in `[0, 10)`.
pub proof fn lemma_digits_in_range(n: int)
    requires
        0 <= n,
    ensures
        forall|k: int| 0 <= k < digits(n).len() ==> 0 <= #[trigger] digits(n)[k] < 10,
    decreases n,
{
    if n < 10 {
        assert(digits(n) == seq![n]);
    } else {
        lemma_mod_bound(n, 10);
        lemma_digits_in_range(n / 10);
        assert forall|k: int| 0 <= k < digits(n).len() implies 0 <= #[trigger] digits(n)[k]
            < 10 by {
            if k < digits(n / 10).len() {
                assert(digits(n)[k] == digits(n / 10)[k]);
            } else {
                assert(digits(n)[k] == n % 10);
            }
        }
    }
}

/// A number below `bound` has at most as many digits as `bound` has trailing
/// zeros here: `digits_fit(n, k)` says `n` fits in `k` digits.
pub open spec fn pow10(k: nat) -> int
    decreases k,
{
    if k == 0 {
        1
    } else {
        10 * pow10((k - 1) as nat)
    }
}

/// A non-negative number below `pow10(k)` has at most `k` digits (and at
/// least one digit in every case).
pub proof fn lemma_digits_len_below(n: int, k: nat)
    requires
        0 <= n,
        n < pow10(k),
    ensures
        digits(n).len() <= if k == 0 { 1nat } else { k },
    decreases k,
{
    if n >= 10 {
        // k == 0 or k == 1 would force n < 10, so k >= 2 is not needed; k >= 1 here.
        assert(k >= 1);
        assert(n / 10 < pow10((k - 1) as nat)) by {
            lemma_fundamental_div_mod(n, 10);
            lemma_mod_bound(n, 10);
        }
        lemma_digits_len_below(n / 10, (k - 1) as nat);
    }
}

/// The glyph of a single decimal digit.
pub open spec fn digit_glyph(d: int) -> char {
    if d == 0 {
        '0'
    } else if d == 1 {
        '1'
    } else if d == 2 {
        '2'
    } else if d == 3 {
        '3'
    } else if d == 4 {
        '4'
    } else if d == 5 {
        '5'
    } else if d == 6 {
        '6'
    } else if d == 7 {
        '7'
    } else if d == 8 {
        '8'
    } else {
        '9'
    }
}

fn glyph_of_digit(d: usize) -> (c: char)
    requires
        d < 10,
    ensures
        c == digit_glyph(d as int),
{
    match d {
        0 => '0',
        1 => '1',
        2 => '2',
        3 => '3',
        4 => '4',
        5 => '5',
        6 => '6',
        7 => '7',
        8 => '8',
        _ => '9',
    }
}

/// The draw commands that render `n` in decimal at origin `(col, row)`:
/// most-significant digit first, one column per digit.
pub open spec fn number_cmds(n: int, col: int, row: int, foreground: Color, background: Color) -> Seq<
    DrawCmd,
> {
    Seq::new(
        digits(n).len(),
        |k: int|
            DrawCmd {
                glyph: digit_glyph(digits(n)[k]),
                col: (col + k) as usize,
                row: row as usize,
                foreground,
                background,
            },
    )
}

/// Render a non-negative number as decimal digits, most significant first,
/// one column per digit starting at `(col, row)`.
pub fn render_number(value: isize, col: usize, row: usize, foreground: Color, background: Color) -> (cmds: Vec<
    DrawCmd,
>)
    requires
        0 <= value,
        col + digits(value as int).len() <= WIDTH,
        row < HEIGHT,
    ensures
        cmds@ == number_cmds(value as int, col as int, row as int, foreground, background),
{
    let ghost n = value as int;
    proof {
        lemma_digits_in_range(n);
    }
    // Digits, least significant first.
    let mut rev: Vec<usize> = Vec::new();
    let mut v: isize = value;
    while v >= 10
        invariant
            0 <= v,
            digits(n).len() == digits(v as int).len() + rev@.len(),
            forall|k: int| 0 <= k < digits(v as int).len() ==> digits(n)[k] == digits(
                v as int,
            )[k],
            forall|k: int|
                0 <= k < rev@.len() ==> digits(n)[digits(n).len() - 1 - k] == #[trigger] rev@[k],
            forall|k: int| 0 <= k < rev@.len() ==> #[trigger] rev@[k] < 10,
        decreases v,
    {
        let d = v % 10;
        proof {
            lemma_mod_bound(v as int, 10);
            lemma_fundamental_div_mod(v as int, 10);
            assert(digits(v as int) == digits(v as int / 10).push(v as int % 10));
        }
        rev.push(d as usize);
        v = v / 10;
    }
    proof {
        assert(digits(v as int) == seq![v as int]);
    }
    rev.push(v as usize);
    let total = rev.len();
    let mut cmds: Vec<DrawCmd> = Vec::new();
    let mut i: usize = 0;
    while i < total
        invariant
            i <= total,
            total == rev@.len(),
            total == digits(n).len(),
            col + total <= WIDTH,
            row < HEIGHT,
            forall|k: int| 0 <= k < total ==> #[trigger] rev@[k] < 10,
            forall|k: int| 0 <= k < total ==> #[trigger] rev@[k] == digits(n)[total - 1 - k],
            cmds@.len() == i,
            forall|k: int|
                0 <= k < i ==> #[trigger] cmds@[k] == number_cmds(
                    n,
                    col as int,
                    row as int,
                    foreground,
                    background,
                )[k],
        decreases total - i,
    {
        let d = rev[total - 1 - i];
        let g = glyph_of_digit(d);
        cmds.push(DrawCmd { glyph: g, col: col + i, row, foreground, background });
        i += 1;
    }
    proof {
        assert(cmds@ =~= number_cmds(n, col as int, row as int, foreground, background));
    }
    cmds
}

} // verus!
