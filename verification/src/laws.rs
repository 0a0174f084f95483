//! Laws that relate the instruction semantics across calls: the flag
//! conventions of the arithmetic instructions, and the toggling nature of
//! sprite drawing (drawing the same sprite twice restores the display).

use vstd::prelude::*;

use crate::semantics::{
    draw_cols, draw_rows, eff_8xy4, eff_8xy5, eff_dxyn, toggle, wf_state, MState, DISPLAY_SIZE,
    MEMORY_SIZE, PIXEL_OFF, PIXEL_ON,
};

verus! {

/// Cell `k` is toggled while processing the bits of one sprite row `byte`
/// at row `yr`, columns `col` and on: its column lies in the row band, is
/// inside the right edge, and its sprite bit is set.
pub open spec fn col_hit_from(byte: u8, xc: int, yr: int, col: int, k: int) -> bool {
    let c = k - yr * 64 - xc;
    col <= c < 8 && xc + c < 64 && ((byte >> ((7 - c) as u8)) & 1u8) == 1u8
}

/// Cell `k` is toggled by a sprite draw of rows `row` and on.
pub open spec fn row_hit(
    ram: Seq<u8>,
    i: usize,
    xc: int,
    yc: int,
    row: int,
    n: int,
    k: int,
) -> bool {
    let r = k / 64 - yc;
    row <= r < n && yc + r < 32 && i + r < MEMORY_SIZE && col_hit_from(ram[i + r], xc, yc + r, 0, k)
}

/// Cell `k` is toggled when state `s` draws the `n`-row sprite at the
/// address register to the coordinates in `VX` and `VY`.
pub open spec fn sprite_hit(s: MState, x: int, y: int, n: int, k: int) -> bool {
    row_hit(s.ram, s.i, (s.v[x] & 63u8) as int, (s.v[y] & 31u8) as int, 0, n, k)
}

/// One sprite row toggles exactly the cells it hits, and collides exactly
/// when one of them was on.
proof fn lemma_draw_cols_char(
    display: Seq<u32>,
    collided: bool,
    byte: u8,
    xc: int,
    yr: int,
    col: int,
)
    requires
        display.len() == DISPLAY_SIZE,
        0 <= xc < 64,
        0 <= yr < 32,
        0 <= col,
    ensures
        draw_cols(display, collided, byte, xc, yr, col).0.len() == DISPLAY_SIZE,
        forall|k: int| 0 <= k < DISPLAY_SIZE ==> draw_cols(display, collided, byte, xc, yr, col).0[k]
            == (if col_hit_from(byte, xc, yr, col, k) {
                toggle(display[k])
            } else {
                display[k]
            }),
        draw_cols(display, collided, byte, xc, yr, col).1 <==> (collided || exists|k: int|
            0 <= k < DISPLAY_SIZE && #[trigger] col_hit_from(byte, xc, yr, col, k) && display[k]
                == PIXEL_ON),
    decreases 8 - col,
{
    let res = draw_cols(display, collided, byte, xc, yr, col);
    if col >= 8 || xc + col >= 64 {
        assert(forall|k: int| !col_hit_from(byte, xc, yr, col, k));
    } else {
        let bit = (byte >> ((7 - col) as u8)) & 1u8;
        let idx = yr * 64 + xc + col;
        let d1 = if bit == 1 {
            display.update(idx, toggle(display[idx]))
        } else {
            display
        };
        let c1 = if bit == 1 {
            collided || display[idx] == PIXEL_ON
        } else {
            collided
        };
        assert(res == draw_cols(d1, c1, byte, xc, yr, col + 1));
        lemma_draw_cols_char(d1, c1, byte, xc, yr, col + 1);
        assert(!col_hit_from(byte, xc, yr, col + 1, idx));
        assert forall|k: int| 0 <= k < DISPLAY_SIZE implies res.0[k] == (if col_hit_from(
            byte,
            xc,
            yr,
            col,
            k,
        ) {
            toggle(display[k])
        } else {
            display[k]
        }) by {
            if k == idx {
                if bit == 1 {
                    assert(col_hit_from(byte, xc, yr, col, idx));
                } else {
                    assert(!col_hit_from(byte, xc, yr, col, idx));
                }
            } else {
                assert(d1[k] == display[k]);
                assert(col_hit_from(byte, xc, yr, col, k) <==> col_hit_from(
                    byte,
                    xc,
                    yr,
                    col + 1,
                    k,
                ));
            }
        }
        if res.1 {
            if !collided {
                if c1 {
                    assert(bit == 1 && display[idx] == PIXEL_ON);
                    assert(col_hit_from(byte, xc, yr, col, idx) && display[idx] == PIXEL_ON);
                } else {
                    let k = choose|k: int|
                        0 <= k < DISPLAY_SIZE && #[trigger] col_hit_from(byte, xc, yr, col + 1, k)
                            && d1[k] == PIXEL_ON;
                    assert(k != idx);
                    assert(col_hit_from(byte, xc, yr, col, k) && display[k] == PIXEL_ON);
                }
            }
        } else {
            assert forall|k: int|
                0 <= k < DISPLAY_SIZE && #[trigger] col_hit_from(byte, xc, yr, col, k) implies display[k]
                != PIXEL_ON by {
                if k == idx {
                    assert(bit == 1);
                    assert(display[idx] != PIXEL_ON);
                } else {
                    assert(col_hit_from(byte, xc, yr, col + 1, k));
                    assert(d1[k] == display[k]);
                }
            }
        }
    }
}

/// A sprite draw toggles exactly the cells it hits, and collides exactly
/// when one of them was on.
proof fn lemma_draw_rows_char(
    ram: Seq<u8>,
    display: Seq<u32>,
    collided: bool,
    i: usize,
    xc: int,
    yc: int,
    row: int,
    n: int,
)
    requires
        ram.len() == MEMORY_SIZE,
        display.len() == DISPLAY_SIZE,
        0 <= xc < 64,
        0 <= yc < 32,
        0 <= row,
    ensures
        draw_rows(ram, display, collided, i, xc, yc, row, n).0.len() == DISPLAY_SIZE,
        forall|k: int| 0 <= k < DISPLAY_SIZE ==> draw_rows(
            ram,
            display,
            collided,
            i,
            xc,
            yc,
            row,
            n,
        ).0[k] == (if row_hit(ram, i, xc, yc, row, n, k) {
            toggle(display[k])
        } else {
            display[k]
        }),
        draw_rows(ram, display, collided, i, xc, yc, row, n).1 <==> (collided || exists|k: int|
            0 <= k < DISPLAY_SIZE && #[trigger] row_hit(ram, i, xc, yc, row, n, k) && display[k]
                == PIXEL_ON),
    decreases n - row,
{
    let res = draw_rows(ram, display, collided, i, xc, yc, row, n);
    if row >= n || yc + row >= 32 || i + row >= MEMORY_SIZE {
        assert(forall|k: int| !row_hit(ram, i, xc, yc, row, n, k));
    } else {
        let byte = ram[i + row];
        let yr = yc + row;
        let rc = draw_cols(display, collided, byte, xc, yr, 0);
        lemma_draw_cols_char(display, collided, byte, xc, yr, 0);
        lemma_draw_rows_char(ram, rc.0, rc.1, i, xc, yc, row + 1, n);
        assert(res == draw_rows(ram, rc.0, rc.1, i, xc, yc, row + 1, n));
        // this row's hits are exactly the hits at row index `row`, and they
        // are disjoint from the hits of the later rows
        assert forall|k: int| 0 <= k < DISPLAY_SIZE implies (row_hit(ram, i, xc, yc, row, n, k)
            <==> (col_hit_from(byte, xc, yr, 0, k) || row_hit(ram, i, xc, yc, row + 1, n, k)))
            && !(col_hit_from(byte, xc, yr, 0, k) && row_hit(ram, i, xc, yc, row + 1, n, k)) by {
            if col_hit_from(byte, xc, yr, 0, k) {
                let c = k - yr * 64 - xc;
                assert(k == yr * 64 + xc + c && 0 <= xc + c < 64);
                assert(k / 64 == yr);
                assert(row_hit(ram, i, xc, yc, row, n, k));
            }
            if row_hit(ram, i, xc, yc, row, n, k) {
                let r = k / 64 - yc;
                if r == row {
                    assert(col_hit_from(byte, xc, yr, 0, k));
                } else {
                    assert(row_hit(ram, i, xc, yc, row + 1, n, k));
                }
            }
        }
        assert forall|k: int| 0 <= k < DISPLAY_SIZE implies res.0[k] == (if row_hit(
            ram,
            i,
            xc,
            yc,
            row,
            n,
            k,
        ) {
            toggle(display[k])
        } else {
            display[k]
        }) by {
            if row_hit(ram, i, xc, yc, row + 1, n, k) {
                assert(rc.0[k] == display[k]);
            }
        }
        if res.1 {
            if !collided {
                if rc.1 {
                    let k = choose|k: int|
                        0 <= k < DISPLAY_SIZE && #[trigger] col_hit_from(byte, xc, yr, 0, k)
                            && display[k] == PIXEL_ON;
                    assert(row_hit(ram, i, xc, yc, row, n, k) && display[k] == PIXEL_ON);
                } else {
                    let k = choose|k: int|
                        0 <= k < DISPLAY_SIZE && #[trigger] row_hit(ram, i, xc, yc, row + 1, n, k)
                            && rc.0[k] == PIXEL_ON;
                    assert(rc.0[k] == display[k]);
                    assert(row_hit(ram, i, xc, yc, row, n, k) && display[k] == PIXEL_ON);
                }
            }
        } else {
            assert forall|k: int|
                0 <= k < DISPLAY_SIZE && #[trigger] row_hit(ram, i, xc, yc, row, n, k) implies display[k]
                != PIXEL_ON by {
                if col_hit_from(byte, xc, yr, 0, k) {
                    assert(display[k] != PIXEL_ON);
                } else {
                    assert(row_hit(ram, i, xc, yc, row + 1, n, k));
                    assert(rc.0[k] == display[k]);
                }
            }
        }
    }
}

/// Law: the register-add instruction's flag register equals 1 exactly
/// when the unsigned sum of the two operands exceeds 255, and, unless the
/// destination is the flag register itself, the stored result is the sum
/// modulo 256. (With the flag register as destination the flag overwrites
/// the stored sum.)
pub proof fn lemma_add_flag_and_result(s: MState, x: int, y: int)
    requires
        wf_state(s),
        0 <= x < 16,
        0 <= y < 16,
    ensures
        eff_8xy4(s, x, y).v[15] == (if s.v[x] + s.v[y] > 255 {
            1u8
        } else {
            0u8
        }),
        x != 15 ==> eff_8xy4(s, x, y).v[x] == (s.v[x] + s.v[y]) % 256,
{
}

/// Law: the register-subtract instruction's flag register equals 1
/// exactly when the minuend is at least the subtrahend (no borrow), and,
/// unless the destination is the flag register itself, the stored result
/// is the difference modulo 256.
pub proof fn lemma_sub_flag_and_result(s: MState, x: int, y: int)
    requires
        wf_state(s),
        0 <= x < 16,
        0 <= y < 16,
    ensures
        eff_8xy5(s, x, y).v[15] == (if s.v[x] >= s.v[y] {
            1u8
        } else {
            0u8
        }),
        x != 15 ==> eff_8xy5(s, x, y).v[x] == (s.v[x] - s.v[y] + 256) % 256,
{
}

/// Law: drawing the same sprite twice at the same location with no
/// intervening clear toggles every affected cell back, restoring the
/// display exactly; and the second draw reports a collision exactly when
/// some affected cell was off before the first draw (every such cell was
/// turned on by the first draw and back off by the second). The
/// coordinate registers must not be the flag register, which the first
/// draw overwrites.
pub proof fn lemma_draw_twice_restores(s: MState, x: int, y: int, n: int)
    requires
        wf_state(s),
        0 <= x < 16,
        0 <= y < 16,
        x != 15,
        y != 15,
        0 <= n <= 15,
    ensures
        eff_dxyn(eff_dxyn(s, x, y, n), x, y, n).display == s.display,
        eff_dxyn(eff_dxyn(s, x, y, n), x, y, n).v[15] == 1 <==> exists|k: int|
            0 <= k < DISPLAY_SIZE && #[trigger] sprite_hit(s, x, y, n, k) && s.display[k]
                == PIXEL_OFF,
{
    let vx = s.v[x];
    let vy = s.v[y];
    assert(vx & 63u8 < 64 && vy & 31u8 < 32) by (bit_vector);
    let xc = (vx & 63u8) as int;
    let yc = (vy & 31u8) as int;
    let s1 = eff_dxyn(s, x, y, n);
    let r1 = draw_rows(s.ram, s.display, false, s.i, xc, yc, 0, n);
    lemma_draw_rows_char(s.ram, s.display, false, s.i, xc, yc, 0, n);
    assert(s1.v[x] == vx && s1.v[y] == vy);
    let s2 = eff_dxyn(s1, x, y, n);
    let r2 = draw_rows(s.ram, r1.0, false, s.i, xc, yc, 0, n);
    lemma_draw_rows_char(s.ram, r1.0, false, s.i, xc, yc, 0, n);
    assert forall|k: int| 0 <= k < DISPLAY_SIZE implies r2.0[k] == s.display[k] by {
        assert(s.display[k] == PIXEL_ON || s.display[k] == PIXEL_OFF);
    }
    assert(r2.0 =~= s.display);
    if r2.1 {
        let k = choose|k: int|
            0 <= k < DISPLAY_SIZE && #[trigger] row_hit(s.ram, s.i, xc, yc, 0, n, k) && r1.0[k]
                == PIXEL_ON;
        assert(s.display[k] == PIXEL_ON || s.display[k] == PIXEL_OFF);
        assert(sprite_hit(s, x, y, n, k) && s.display[k] == PIXEL_OFF);
    }
    if exists|k: int|
        0 <= k < DISPLAY_SIZE && #[trigger] sprite_hit(s, x, y, n, k) && s.display[k]
            == PIXEL_OFF {
        let k = choose|k: int|
            0 <= k < DISPLAY_SIZE && #[trigger] sprite_hit(s, x, y, n, k) && s.display[k]
                == PIXEL_OFF;
        assert(r1.0[k] == PIXEL_ON);
        assert(r2.1);
    }
}

} // verus!
