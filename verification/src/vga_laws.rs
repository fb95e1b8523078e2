//! Proved properties of the writer automaton: what runs of printable text do
//! to the grid and the position, what line feeds, backspaces and the clear
//! operations change, and the exact port traffic of the cursor protocol.

use vstd::prelude::*;

use crate::vga::{
    spec_backspace, spec_cell_at, spec_blank, spec_clear_all, spec_clear_current_row, spec_cursor_set_seq,
    spec_do_write_byte, spec_new_line, spec_pos, spec_wf, spec_write_byte, spec_write_bytes,
    SingleChar, WriterView, BUFFER_CELLS, BUFFER_HEIGHT, BUFFER_WIDTH,
};

verus! {

/// One printable byte (neither newline nor backspace), written anywhere but
/// the very last cell, lands at the current position under the default
/// attribute and moves the position one cell forward, wrapping rows as
/// needed; nothing else on the grid changes.
pub proof fn lemma_write_glyph(v: WriterView, b: u8)
    requires
        spec_wf(v),
        b != 10,
        b != 8,
        spec_pos(v) < BUFFER_CELLS - 1,
    ensures
        spec_wf(spec_write_byte(v, b)),
        spec_write_byte(v, b).cells == v.cells.update(
            spec_pos(v),
            (SingleChar { code: b, attr: v.default_attr }),
        ),
        spec_pos(spec_write_byte(v, b)) == spec_pos(v) + 1,
        spec_write_byte(v, b).default_attr == v.default_attr,
        spec_write_byte(v, b).cursor_visible == v.cursor_visible,
{
    let w = spec_write_byte(v, b);
    if v.col_pos == BUFFER_WIDTH - 1 {
        assert(v.row_pos * BUFFER_WIDTH + v.col_pos < BUFFER_CELLS - 1);
        assert(v.row_pos < BUFFER_HEIGHT - 1);
        assert(spec_pos(w) == (v.row_pos + 1) * BUFFER_WIDTH);
    } else {
        assert(spec_pos(w) == spec_pos(v) + 1);
    }
}

/// A run of printable bytes that fits strictly inside the grid is laid down
/// byte for byte from the starting position, under the default attribute;
/// every other cell keeps its contents, and the position advances by exactly
/// the length of the run.
pub proof fn lemma_write_printable_run(v: WriterView, s: Seq<u8>)
    requires
        spec_wf(v),
        forall|k: int| 0 <= k < s.len() ==> s[k] != 10 && s[k] != 8,
        spec_pos(v) + s.len() < BUFFER_CELLS,
    ensures
        spec_wf(spec_write_bytes(v, s)),
        forall|k: int|
            0 <= k < s.len() ==> spec_write_bytes(v, s).cells[spec_pos(v) + k] == (SingleChar {
                code: s[k],
                attr: v.default_attr,
            }),
        forall|i: int|
            0 <= i < BUFFER_CELLS && !(spec_pos(v) <= i < spec_pos(v) + s.len())
                ==> spec_write_bytes(v, s).cells[i] == v.cells[i],
        spec_pos(spec_write_bytes(v, s)) == spec_pos(v) + s.len(),
        spec_write_bytes(v, s).default_attr == v.default_attr,
        spec_write_bytes(v, s).cursor_visible == v.cursor_visible,
    decreases s.len(),
{
    if s.len() == 0 {
    } else {
        let b = s[0];
        let v1 = spec_write_byte(v, b);
        lemma_write_glyph(v, b);
        lemma_write_printable_run(v1, s.skip(1));
        assert(spec_write_bytes(v, s) == spec_write_bytes(v1, s.skip(1)));
        assert forall|k: int| 0 <= k < s.len() implies spec_write_bytes(v, s).cells[spec_pos(v)
            + k] == (SingleChar { code: s[k], attr: v.default_attr }) by {
            if k == 0 {
                assert(v1.cells[spec_pos(v)] == (SingleChar { code: b, attr: v.default_attr }));
                assert(!(spec_pos(v1) <= spec_pos(v) < spec_pos(v1) + s.skip(1).len()));
            } else {
                assert(s.skip(1)[k - 1] == s[k]);
                assert(spec_write_bytes(v1, s.skip(1)).cells[spec_pos(v1) + (k - 1)]
                    == (SingleChar { code: s.skip(1)[k - 1], attr: v1.default_attr }));
            }
        }
        assert forall|i: int|
            0 <= i < BUFFER_CELLS && !(spec_pos(v) <= i < spec_pos(v) + s.len()) implies
            spec_write_bytes(v, s).cells[i] == v.cells[i] by {
            assert(spec_write_bytes(v1, s.skip(1)).cells[i] == v1.cells[i]);
            assert(v1.cells[i] == v.cells[i]);
        }
    }
}

/// Writing a string of printable bytes shorter than one row to a fresh
/// screen leaves the row at 0 and the column at the string's length, and the
/// first cells hold exactly those bytes under the default attribute.
pub proof fn lemma_short_string_stays_on_row_zero(v: WriterView, s: Seq<u8>)
    requires
        spec_wf(v),
        v.row_pos == 0,
        v.col_pos == 0,
        forall|k: int| 0 <= k < s.len() ==> s[k] != 10 && s[k] != 8,
        s.len() < BUFFER_WIDTH,
    ensures
        spec_write_bytes(v, s).row_pos == 0,
        spec_write_bytes(v, s).col_pos == s.len(),
        forall|k: int|
            0 <= k < s.len() ==> spec_write_bytes(v, s).cells[k] == (SingleChar {
                code: s[k],
                attr: v.default_attr,
            }),
{
    lemma_write_printable_run(v, s);
    let w = spec_write_bytes(v, s);
    assert(w.row_pos * BUFFER_WIDTH + w.col_pos == s.len());
    assert(w.row_pos == 0) by {
        if w.row_pos >= 1 {
            assert(w.row_pos * BUFFER_WIDTH >= BUFFER_WIDTH);
        }
    }
}

/// Writing exactly one row's worth of printable bytes to a fresh screen
/// wraps to row 1, column 0, and row 0 holds the eighty written cells.
pub proof fn lemma_full_row_wraps(v: WriterView, s: Seq<u8>)
    requires
        spec_wf(v),
        v.row_pos == 0,
        v.col_pos == 0,
        forall|k: int| 0 <= k < s.len() ==> s[k] != 10 && s[k] != 8,
        s.len() == BUFFER_WIDTH,
    ensures
        spec_write_bytes(v, s).row_pos == 1,
        spec_write_bytes(v, s).col_pos == 0,
        forall|k: int|
            0 <= k < BUFFER_WIDTH ==> spec_write_bytes(v, s).cells[k] == (SingleChar {
                code: s[k],
                attr: v.default_attr,
            }),
{
    lemma_write_printable_run(v, s);
    let w = spec_write_bytes(v, s);
    assert(w.row_pos * BUFFER_WIDTH + w.col_pos == BUFFER_WIDTH);
    assert(w.row_pos == 1) by {
        if w.row_pos == 0 {
            assert(w.col_pos == BUFFER_WIDTH);
        } else if w.row_pos >= 2 {
            assert(w.row_pos * BUFFER_WIDTH >= 2 * BUFFER_WIDTH);
        }
    }
}

/// Round trip: any run of printable bytes shorter than the grid's capacity,
/// written from a fresh screen, can be read back cell by cell: the display
/// codes of the first cells are exactly the bytes written.
pub proof fn lemma_round_trip(v: WriterView, s: Seq<u8>)
    requires
        spec_wf(v),
        v.row_pos == 0,
        v.col_pos == 0,
        forall|k: int| 0 <= k < s.len() ==> s[k] != 10 && s[k] != 8,
        s.len() < BUFFER_CELLS,
    ensures
        forall|k: int| 0 <= k < s.len() ==> spec_write_bytes(v, s).cells[k].code == s[k],
        forall|k: int| 0 <= k < s.len() ==> spec_write_bytes(v, s).cells[k].attr == v.default_attr,
{
    lemma_write_printable_run(v, s);
    assert forall|k: int| 0 <= k < s.len() implies spec_write_bytes(v, s).cells[k].code == s[k] by {
        assert(spec_write_bytes(v, s).cells[spec_pos(v) + k] == (SingleChar {
            code: s[k],
            attr: v.default_attr,
        }));
    }
    assert forall|k: int|
        0 <= k < s.len() implies spec_write_bytes(v, s).cells[k].attr == v.default_attr by {
        assert(spec_write_bytes(v, s).cells[spec_pos(v) + k] == (SingleChar {
            code: s[k],
            attr: v.default_attr,
        }));
    }
}

/// A line feed below the last row advances the row, resets the column and
/// leaves every cell of the grid untouched.
pub proof fn lemma_new_line_below_last_row(v: WriterView)
    requires
        spec_wf(v),
        v.row_pos < BUFFER_HEIGHT - 1,
    ensures
        spec_new_line(v).cells == v.cells,
        spec_new_line(v).row_pos == v.row_pos + 1,
        spec_new_line(v).col_pos == 0,
        spec_new_line(v).default_attr == v.default_attr,
        spec_new_line(v).cursor_visible == v.cursor_visible,
{
}

/// A line feed on the last row scrolls: each row's prior content becomes the
/// content of the row above it, the last row becomes blank, the row stays at
/// the bottom and the column resets.
pub proof fn lemma_new_line_scrolls_at_bottom(v: WriterView)
    requires
        spec_wf(v),
        v.row_pos == BUFFER_HEIGHT - 1,
    ensures
        forall|k: int, c: int|
            1 <= k < BUFFER_HEIGHT && 0 <= c < BUFFER_WIDTH ==> spec_cell_at(
                spec_new_line(v).cells,
                k - 1,
                c,
            ) == #[trigger] spec_cell_at(v.cells, k, c),
        forall|c: int|
            0 <= c < BUFFER_WIDTH ==> #[trigger] spec_cell_at(
                spec_new_line(v).cells,
                BUFFER_HEIGHT - 1,
                c,
            ) == spec_blank(v.default_attr),
        spec_new_line(v).row_pos == BUFFER_HEIGHT - 1,
        spec_new_line(v).col_pos == 0,
{
}

/// A backspace byte consumed with the column past 0 moves the column back by
/// one and blanks the cell at the resulting position; nothing else on the
/// grid changes.
pub proof fn lemma_backspace_mid_row(v: WriterView)
    requires
        spec_wf(v),
        v.col_pos > 0,
    ensures
        spec_write_byte(v, 8).row_pos == v.row_pos,
        spec_write_byte(v, 8).col_pos == v.col_pos - 1,
        spec_write_byte(v, 8).cells == v.cells.update(
            spec_pos(v) - 1,
            spec_blank(v.default_attr),
        ),
{
    let b1 = spec_backspace(v);
    let d = spec_do_write_byte(b1, 0);
    let w = spec_backspace(d);
    assert(spec_write_byte(v, 8) == w);
    assert(w.cells =~= v.cells.update(spec_pos(v) - 1, spec_blank(v.default_attr)));
}

/// A backspace byte consumed at column 0 of a row past the top moves to the
/// last column of the row above and blanks that cell.
pub proof fn lemma_backspace_wraps_to_previous_row(v: WriterView)
    requires
        spec_wf(v),
        v.col_pos == 0,
        v.row_pos > 0,
    ensures
        spec_write_byte(v, 8).row_pos == v.row_pos - 1,
        spec_write_byte(v, 8).col_pos == BUFFER_WIDTH - 1,
        spec_write_byte(v, 8).cells == v.cells.update(
            spec_pos(v) - 1,
            spec_blank(v.default_attr),
        ),
{
    let b1 = spec_backspace(v);
    let d = spec_do_write_byte(b1, 0);
    let w = spec_backspace(d);
    assert(spec_write_byte(v, 8) == w);
    assert(spec_pos(v) - 1 == (v.row_pos - 1) * BUFFER_WIDTH + (BUFFER_WIDTH - 1));
    assert(w.cells =~= v.cells.update(spec_pos(v) - 1, spec_blank(v.default_attr)));
}

/// Clearing the current row blanks exactly that row's cells, resets the
/// column and leaves the row and every other cell unchanged.
pub proof fn lemma_clear_current_row_scope(v: WriterView)
    requires
        spec_wf(v),
    ensures
        forall|c: int|
            0 <= c < BUFFER_WIDTH ==> #[trigger] spec_cell_at(
                spec_clear_current_row(v).cells,
                v.row_pos,
                c,
            ) == spec_blank(v.default_attr),
        forall|i: int|
            0 <= i < BUFFER_CELLS && !(v.row_pos * BUFFER_WIDTH <= i < (v.row_pos + 1)
                * BUFFER_WIDTH) ==> spec_clear_current_row(v).cells[i] == v.cells[i],
        spec_clear_current_row(v).row_pos == v.row_pos,
        spec_clear_current_row(v).col_pos == 0,
{
}

/// Clearing the screen blanks rows `0..=row_pos` only: every cell of a row
/// past the current one keeps its contents; the position returns to the
/// origin.
pub proof fn lemma_clear_all_scope(v: WriterView)
    requires
        spec_wf(v),
    ensures
        forall|i: int|
            0 <= i < (v.row_pos + 1) * BUFFER_WIDTH ==> spec_clear_all(v).cells[i] == spec_blank(
                v.default_attr,
            ),
        forall|i: int|
            (v.row_pos + 1) * BUFFER_WIDTH <= i < BUFFER_CELLS ==> spec_clear_all(v).cells[i]
                == v.cells[i],
        spec_clear_all(v).row_pos == 0,
        spec_clear_all(v).col_pos == 0,
{
}

/// With the cursor visible, a line feed issues exactly one position-set
/// sequence - index 0x0F with the low byte, then index 0x0E with the high
/// byte of the new position - and nothing else.
pub proof fn lemma_cursor_protocol_new_line(v: WriterView)
    requires
        spec_wf(v),
        v.cursor_visible,
    ensures
        spec_new_line(v).ports == v.ports + spec_cursor_set_seq(spec_pos(spec_new_line(v))),
{
}

/// With the cursor visible, writing one printable byte issues exactly one
/// position-set sequence for the position after the write.
pub proof fn lemma_cursor_protocol_glyph(v: WriterView, b: u8)
    requires
        spec_wf(v),
        v.cursor_visible,
        b != 10,
        b != 8,
    ensures
        spec_write_byte(v, b).ports == v.ports + spec_cursor_set_seq(
            spec_pos(spec_write_byte(v, b)),
        ),
{
}

/// With the cursor visible, a backspace byte issues exactly three
/// position-set sequences, one per cursor movement of the
/// retreat / blank / retreat run, each for the position just reached.
pub proof fn lemma_cursor_protocol_backspace(v: WriterView)
    requires
        spec_wf(v),
        v.cursor_visible,
    ensures
        spec_write_byte(v, 8).ports == v.ports + spec_cursor_set_seq(spec_pos(spec_backspace(v)))
            + spec_cursor_set_seq(spec_pos(spec_do_write_byte(spec_backspace(v), 0)))
            + spec_cursor_set_seq(spec_pos(spec_write_byte(v, 8))),
{
    let b1 = spec_backspace(v);
    let d = spec_do_write_byte(b1, 0);
    let w = spec_backspace(d);
    assert(spec_write_byte(v, 8) == w);
    assert(w.ports =~= v.ports + spec_cursor_set_seq(spec_pos(b1)) + spec_cursor_set_seq(
        spec_pos(d),
    ) + spec_cursor_set_seq(spec_pos(w)));
}

/// With the cursor hidden, consuming any byte stream issues no port write at
/// all; only the explicit show and hide calls touch the ports.
pub proof fn lemma_hidden_cursor_silent(v: WriterView, s: Seq<u8>)
    requires
        spec_wf(v),
        !v.cursor_visible,
    ensures
        spec_wf(spec_write_bytes(v, s)),
        spec_write_bytes(v, s).ports == v.ports,
        !spec_write_bytes(v, s).cursor_visible,
    decreases s.len(),
{
    if s.len() == 0 {
    } else {
        lemma_write_byte_keeps_wf(v, s[0]);
        lemma_hidden_cursor_silent(spec_write_byte(v, s[0]), s.skip(1));
    }
}

/// Consuming any byte keeps the writer state well formed and never touches
/// the default attribute or the visibility flag; with the cursor hidden it
/// leaves the port history alone.
pub proof fn lemma_write_byte_keeps_wf(v: WriterView, b: u8)
    requires
        spec_wf(v),
    ensures
        spec_wf(spec_write_byte(v, b)),
        spec_write_byte(v, b).default_attr == v.default_attr,
        spec_write_byte(v, b).cursor_visible == v.cursor_visible,
        !v.cursor_visible ==> spec_write_byte(v, b).ports == v.ports,
{
}

} // verus!
