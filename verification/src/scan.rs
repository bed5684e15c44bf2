//! The row-scan sequence: the exact ordered list of line writes and delays
//! that refreshes the panel.
//!
//! For each of the 16 physical rows the driver shifts 64 column pixel pairs
//! (data lines, then a clock pulse each), blanks the panel, pulses the latch
//! around a short delay, sets the 4-bit row address, and un-blanks. The
//! sequence is fixed; shift registers make any reordering visible on the
//! panel.

use vstd::arithmetic::div_mod::{lemma_fundamental_div_mod, lemma_fundamental_div_mod_converse};
use vstd::prelude::*;
use crate::frame::{Frame, lower_pixel, upper_pixel};

verus! {

/// One of the panel's discrete lines. The red and blue data lines and the
/// fifth address line are wired but never driven by the scan; only the two
/// green data lines carry pixel data.
#[derive(Clone, Copy, PartialEq, Eq, Structural, Debug)]
pub enum Line {
    R1,
    G1,
    B1,
    R2,
    G2,
    B2,
    AddrA,
    AddrB,
    AddrC,
    AddrD,
    AddrE,
    Oe,
    Clk,
    Lat,
}

/// One step of the scan: drive a line to a level, or hold for a delay.
#[derive(Clone, Copy, PartialEq, Eq, Structural, Debug)]
pub enum Action {
    Write(Line, bool),
    DelayMicros(u64),
}

/// Actions emitted per column: two data writes and a clock pulse.
pub const ACTIONS_PER_COL: usize = 4;

/// Actions emitted per row: 64 columns plus the latch/address/blank tail.
pub const ACTIONS_PER_ROW: usize = 265;

/// Actions emitted per full 16-row frame scan.
pub const ACTIONS_PER_FRAME: usize = 4240;

/// Whether address bit `mask` of `row` is set.
pub open spec fn addr_bit(row: u8, mask: u8) -> bool {
    row & mask != 0
}

/// The `i`-th action of the column-shift phase of `row` (0 <= i < 256):
/// columns ascend, and each contributes its two data writes then a clock
/// pulse, high then low.
pub open spec fn col_action(d: Seq<u8>, row: int, i: int) -> Action {
    let col = i / 4;
    if i % 4 == 0 {
        Action::Write(Line::G1, upper_pixel(d, row, col))
    } else if i % 4 == 1 {
        Action::Write(Line::G2, lower_pixel(d, row, col))
    } else if i % 4 == 2 {
        Action::Write(Line::Clk, true)
    } else {
        Action::Write(Line::Clk, false)
    }
}

/// The `j`-th action of the row tail (0 <= j < 9): blank, pulse the latch
/// around a short delay, set the address lines, un-blank.
pub open spec fn tail_action(row: int, j: int) -> Action {
    if j == 0 {
        Action::Write(Line::Oe, true)
    } else if j == 1 {
        Action::Write(Line::Lat, false)
    } else if j == 2 {
        Action::DelayMicros(1)
    } else if j == 3 {
        Action::Write(Line::Lat, true)
    } else if j == 4 {
        Action::Write(Line::AddrA, addr_bit(row as u8, 0x01))
    } else if j == 5 {
        Action::Write(Line::AddrB, addr_bit(row as u8, 0x02))
    } else if j == 6 {
        Action::Write(Line::AddrC, addr_bit(row as u8, 0x04))
    } else if j == 7 {
        Action::Write(Line::AddrD, addr_bit(row as u8, 0x08))
    } else {
        Action::Write(Line::Oe, false)
    }
}

/// The `i`-th action of one row's scan.
pub open spec fn row_action(d: Seq<u8>, row: int, i: int) -> Action {
    if i < 256 {
        col_action(d, row, i)
    } else {
        tail_action(row, i - 256)
    }
}

/// All actions of one row's scan, in order.
pub open spec fn row_writes(d: Seq<u8>, row: int) -> Seq<Action> {
    Seq::new(265, |i: int| row_action(d, row, i))
}

/// The `i`-th action of a full frame scan: rows 0 through 15 in order.
pub open spec fn frame_action(d: Seq<u8>, i: int) -> Action {
    row_action(d, i / 265, i % 265)
}

/// All actions of a full frame scan, in order.
pub open spec fn frame_writes(d: Seq<u8>) -> Seq<Action> {
    Seq::new(4240, |i: int| frame_action(d, i))
}

/// Index arithmetic of the frame sequence: action `265 * row + j` of a frame
/// scan is action `j` of `row`'s scan.
pub proof fn lemma_frame_action_at(d: Seq<u8>, row: int, j: int)
    requires
        0 <= row < 16,
        0 <= j < 265,
    ensures
        frame_action(d, 265 * row + j) == row_action(d, row, j),
{
    lemma_fundamental_div_mod_converse(265 * row + j, 265, row, j);
}

/// Index arithmetic of the column phase: action `4 * col + j` of a row scan
/// is step `j` of column `col`.
pub proof fn lemma_col_action_at(d: Seq<u8>, row: int, col: int, j: int)
    requires
        0 <= col < 64,
        0 <= j < 4,
    ensures
        row_action(d, row, 4 * col + j) == col_action(d, row, 4 * col + j),
        (4 * col + j) / 4 == col,
        (4 * col + j) % 4 == j,
{
    lemma_fundamental_div_mod_converse(4 * col + j, 4, col, j);
}

/// A frame index `0 <= i < 4240` splits as `i == 265 * (i / 265) + i % 265`
/// with the row `i / 265` in range.
proof fn lemma_frame_index_split(i: int)
    requires
        0 <= i < 4240,
    ensures
        i == 265 * (i / 265) + i % 265,
        0 <= i / 265 < 16,
        0 <= i % 265 < 265,
{
    lemma_fundamental_div_mod(i, 265);
}

/// Index of the shift-clock rising edge that clocks column `col` of `row`
/// into the panel, within a frame's write sequence.
pub open spec fn clk_rise_index(row: int, col: int) -> int {
    265 * row + 4 * col + 2
}

/// Scan order: within a row, columns are clocked strictly ascending 0..64,
/// and rows run strictly ascending 0..16. Each (row, col) has its clock
/// rising edge at a fixed index, immediately preceded by that column's two
/// data writes; those indices grow lexicographically with (row, col); and no
/// other action of the frame is a clock rising edge.
pub proof fn lemma_scan_order(d: Seq<u8>)
    ensures
        frame_writes(d).len() == 4240,
        forall|row: int, col: int|
            0 <= row < 16 && 0 <= col < 64 ==> {
                &&& #[trigger] frame_writes(d)[clk_rise_index(row, col)] == Action::Write(
                    Line::Clk,
                    true,
                )
                &&& frame_writes(d)[clk_rise_index(row, col) - 2] == Action::Write(
                    Line::G1,
                    upper_pixel(d, row, col),
                )
                &&& frame_writes(d)[clk_rise_index(row, col) - 1] == Action::Write(
                    Line::G2,
                    lower_pixel(d, row, col),
                )
            },
        forall|r1: int, c1: int, r2: int, c2: int|
            0 <= r1 < 16 && 0 <= c1 < 64 && 0 <= r2 < 16 && 0 <= c2 < 64 && (r1 < r2 || (r1 == r2
                && c1 < c2)) ==> #[trigger] clk_rise_index(r1, c1) < #[trigger] clk_rise_index(
                r2,
                c2,
            ),
        forall|i: int|
            0 <= i < 4240 && #[trigger] frame_writes(d)[i] == Action::Write(Line::Clk, true)
                ==> i == clk_rise_index(i / 265, (i % 265) / 4),
{
    assert forall|row: int, col: int| 0 <= row < 16 && 0 <= col < 64 implies {
        &&& #[trigger] frame_writes(d)[clk_rise_index(row, col)] == Action::Write(Line::Clk, true)
        &&& frame_writes(d)[clk_rise_index(row, col) - 2] == Action::Write(
            Line::G1,
            upper_pixel(d, row, col),
        )
        &&& frame_writes(d)[clk_rise_index(row, col) - 1] == Action::Write(
            Line::G2,
            lower_pixel(d, row, col),
        )
    } by {
        lemma_frame_action_at(d, row, 4 * col);
        lemma_frame_action_at(d, row, 4 * col + 1);
        lemma_frame_action_at(d, row, 4 * col + 2);
        lemma_col_action_at(d, row, col, 0);
        lemma_col_action_at(d, row, col, 1);
        lemma_col_action_at(d, row, col, 2);
    }
    assert forall|i: int|
        0 <= i < 4240 && #[trigger] frame_writes(d)[i] == Action::Write(
            Line::Clk,
            true,
        ) implies i == clk_rise_index(i / 265, (i % 265) / 4) by {
        lemma_frame_index_split(i);
        let r = i / 265;
        let m = i % 265;
        assert(frame_action(d, i) == row_action(d, r, m)) by {
            lemma_frame_action_at(d, r, m);
        }
        assert(m < 256);
        lemma_fundamental_div_mod(m, 4);
        let c = m / 4;
        assert(m % 4 == 2);
        lemma_col_action_at(d, r, c, m % 4);
    }
}

/// Whether output-enable is asserted (panel blanked) once the first `i`
/// actions of a frame scan have run, given that it was asserted when the
/// scan began (the pin comes up asserted at reset).
pub open spec fn oe_asserted_after(d: Seq<u8>, i: int) -> bool
    decreases i,
{
    if i <= 0 {
        true
    } else if frame_action(d, i - 1) == Action::Write(Line::Oe, true) {
        true
    } else if frame_action(d, i - 1) == Action::Write(Line::Oe, false) {
        false
    } else {
        oe_asserted_after(d, i - 1)
    }
}

/// Whether an action drives one of the four row-address lines.
pub open spec fn is_addr_write(a: Action) -> bool {
    match a {
        Action::Write(l, _) => l == Line::AddrA || l == Line::AddrB || l == Line::AddrC || l
            == Line::AddrD,
        Action::DelayMicros(_) => false,
    }
}

/// Address lines are written only in the row tail, between the latch pulse
/// and the un-blank.
proof fn lemma_addr_write_position(d: Seq<u8>, i: int)
    requires
        0 <= i < 4240,
        is_addr_write(frame_writes(d)[i]),
    ensures
        260 <= i % 265 <= 263,
{
    lemma_frame_index_split(i);
    let r = i / 265;
    let m = i % 265;
    lemma_frame_action_at(d, r, m);
    if m < 256 {
        lemma_fundamental_div_mod(m, 4);
        lemma_col_action_at(d, r, m / 4, m % 4);
    }
}

/// Output-enable stays asserted through the row tail once set: from just
/// after the blank write to the end of the tail, the panel is dark.
proof fn lemma_oe_holds_through_tail(d: Seq<u8>, r: int, j: int)
    requires
        0 <= r < 16,
        265 * r + 257 <= j <= 265 * r + 264,
    ensures
        oe_asserted_after(d, j),
    decreases j,
{
    lemma_frame_action_at(d, r, j - 1 - 265 * r);
    if j > 265 * r + 257 {
        lemma_oe_holds_through_tail(d, r, j - 1);
    }
}

/// Blanking covers the address update: every write to a row-address line
/// happens while output-enable is asserted, and the un-blank of each row
/// comes only at the end of its tail, strictly after all of that row's
/// address writes.
pub proof fn lemma_blank_covers_address_update(d: Seq<u8>, i: int)
    requires
        0 <= i < 4240,
        is_addr_write(frame_writes(d)[i]),
    ensures
        oe_asserted_after(d, i),
{
    lemma_addr_write_position(d, i);
    lemma_frame_index_split(i);
    lemma_oe_holds_through_tail(d, i / 265, i);
}

/// The panel is un-blanked only as the last step of a row's tail, after the
/// address lines of that row are stable.
pub proof fn lemma_unblank_after_address(d: Seq<u8>, i: int)
    requires
        0 <= i < 4240,
        frame_writes(d)[i] == Action::Write(Line::Oe, false),
    ensures
        i % 265 == 264,
        forall|j: int|
            0 <= j < 4240 && is_addr_write(#[trigger] frame_writes(d)[j]) && j / 265 == i / 265
                ==> j < i,
{
    lemma_frame_index_split(i);
    let r = i / 265;
    let m = i % 265;
    lemma_frame_action_at(d, r, m);
    if m < 256 {
        lemma_fundamental_div_mod(m, 4);
        lemma_col_action_at(d, r, m / 4, m % 4);
    }
    assert(m == 264);
    assert forall|j: int|
        0 <= j < 4240 && is_addr_write(#[trigger] frame_writes(d)[j]) && j / 265 == i
            / 265 implies j < i by {
        lemma_addr_write_position(d, j);
        lemma_frame_index_split(j);
    }
}

/// Emits the scan of one row: 64 ascending columns of data-and-clock, then
/// the blank/latch/address tail.
pub fn scan_row(frame: &Frame, row: usize) -> (acts: Vec<Action>)
    requires
        frame.wf(),
        row < 16,
    ensures
        acts@ == row_writes(frame.pixels(), row as int),
{
    let ghost d = frame.pixels();
    let mut acts: Vec<Action> = Vec::new();
    let mut col: usize = 0;
    while col < 64
        invariant
            frame.wf(),
            row < 16,
            col <= 64,
            d == frame.pixels(),
            acts@.len() == 4 * col,
            forall|k: int| 0 <= k < acts@.len() ==> acts@[k] == row_action(d, row as int, k),
        decreases 64 - col,
    {
        let g1 = frame.upper_bit(row, col);
        let g2 = frame.lower_bit(row, col);
        acts.push(Action::Write(Line::G1, g1));
        acts.push(Action::Write(Line::G2, g2));
        acts.push(Action::Write(Line::Clk, true));
        acts.push(Action::Write(Line::Clk, false));
        proof {
            assert forall|k: int| 4 * col <= k < 4 * col + 4 implies #[trigger] acts@[k]
                == row_action(d, row as int, k) by {
                lemma_col_action_at(d, row as int, col as int, k - 4 * col);
            }
        }
        col += 1;
    }
    let r8: u8 = row as u8;
    acts.push(Action::Write(Line::Oe, true));
    acts.push(Action::Write(Line::Lat, false));
    acts.push(Action::DelayMicros(1));
    acts.push(Action::Write(Line::Lat, true));
    acts.push(Action::Write(Line::AddrA, r8 & 0x01 != 0));
    acts.push(Action::Write(Line::AddrB, r8 & 0x02 != 0));
    acts.push(Action::Write(Line::AddrC, r8 & 0x04 != 0));
    acts.push(Action::Write(Line::AddrD, r8 & 0x08 != 0));
    acts.push(Action::Write(Line::Oe, false));
    proof {
        assert(acts@ =~= row_writes(d, row as int));
    }
    acts
}

/// Emits one full frame scan of `frame`: rows 0 through 15, each scanned as
/// in `scan_row`, in strictly ascending order.
pub fn scan_frame(frame: &Frame) -> (acts: Vec<Action>)
    requires
        frame.wf(),
    ensures
        acts@ == frame_writes(frame.pixels()),
{
    let ghost d = frame.pixels();
    let mut acts: Vec<Action> = Vec::new();
    let mut row: usize = 0;
    while row < 16
        invariant
            frame.wf(),
            row <= 16,
            d == frame.pixels(),
            acts@.len() == 265 * row,
            forall|k: int| 0 <= k < acts@.len() ==> acts@[k] == frame_action(d, k),
        decreases 16 - row,
    {
        let mut r = scan_row(frame, row);
        acts.append(&mut r);
        proof {
            assert forall|k: int| 265 * row <= k < 265 * row + 265 implies #[trigger] acts@[k]
                == frame_action(d, k) by {
                let j = k - 265 * row;
                lemma_frame_action_at(d, row as int, j);
                assert(acts@[k] == row_writes(d, row as int)[j]);
            }
        }
        row += 1;
    }
    proof {
        assert(acts@ =~= frame_writes(d));
    }
    acts
}

} // verus!
