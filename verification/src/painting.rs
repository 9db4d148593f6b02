use crate::machine::{
    pixel_position, sprite_bit, sprite_col, sprite_row, Machine, DISPLAY_HEIGHT, DISPLAY_SIZE,
    DISPLAY_WIDTH, FLAG, NUM_REGISTERS,
};
use vstd::prelude::*;

verus! {

/// Whether screen position `p` comes before row `rows`, column `cols` of
/// the sprite in drawing order.
pub(crate) open spec fn reached(p: int, left: u8, top: u8, rows: int, cols: int) -> bool {
    sprite_row(p, top) < rows || (sprite_row(p, top) == rows && sprite_col(p, left) < cols)
}

/// Whether the sprite pixel that falls on `p` is lit and was drawn before
/// row `rows`, column `cols`.
#[verifier::opaque]
pub(crate) open spec fn lit_before(
    before: Machine,
    left: u8,
    top: u8,
    height: u8,
    rows: int,
    cols: int,
    p: int,
) -> bool {
    before.sprite_lights(left, top, height, p) && reached(p, left, top, rows, cols)
}

/// Whether a lit pixel that was drawn before row `rows`, column `cols`
/// fell on a pixel that was lit.
pub(crate) open spec fn collided_before(
    before: Machine,
    left: u8,
    top: u8,
    height: u8,
    rows: int,
    cols: int,
) -> bool {
    exists|p: int| #[trigger]
        lit_before(before, left, top, height, rows, cols, p) && before.display[p] == 1
}

/// What holds while a sprite is being drawn, before its row `rows`, column
/// `cols`: the pixels drawn so far are flipped, the flag tells whether one
/// of them went dark, and nothing else has changed.
pub(crate) open spec fn painted(
    before: Machine,
    now: Machine,
    left: u8,
    top: u8,
    height: u8,
    rows: int,
    cols: int,
) -> bool {
    &&& now == (Machine { display: now.display, registers: now.registers, ..before })
    &&& now.display.len() == DISPLAY_SIZE
    &&& forall|p: int|
        0 <= p < DISPLAY_SIZE ==> #[trigger] now.display[p] == if lit_before(
            before,
            left,
            top,
            height,
            rows,
            cols,
            p,
        ) {
            before.display[p] ^ 1
        } else {
            before.display[p]
        }
    &&& now.registers == before.registers.update(
        FLAG as int,
        if collided_before(before, left, top, height, rows, cols) {
            1u8
        } else {
            0u8
        },
    )
}

/// Each pixel of a sprite falls on one screen position, and no other pixel
/// of the sprite falls there.
pub(crate) proof fn lemma_pixel_position(left: u8, top: u8, row: int, col: int, p: int)
    requires
        0 <= row < DISPLAY_HEIGHT,
        0 <= col < DISPLAY_WIDTH,
        0 <= p < DISPLAY_SIZE,
    ensures
        0 <= pixel_position(left, top, row, col) < DISPLAY_SIZE,
        (sprite_row(p, top) == row && sprite_col(p, left) == col) <==> p == pixel_position(
            left,
            top,
            row,
            col,
        ),
{
}

/// The pixels drawn before the next column are those drawn before this
/// one, and this one where the sprite is lit.
pub(crate) proof fn lemma_lit_next(
    before: Machine,
    left: u8,
    top: u8,
    height: u8,
    row: int,
    col: int,
    p: int,
)
    requires
        0 <= row < height < 16,
        0 <= col < 8,
        0 <= p < DISPLAY_SIZE,
    ensures
        lit_before(before, left, top, height, row, col + 1, p) <==> (lit_before(
            before,
            left,
            top,
            height,
            row,
            col,
            p,
        ) || (p == pixel_position(left, top, row, col) && sprite_bit(
            before.memory[before.index + row],
            col as u8,
        ))),
{
    reveal(lit_before);
    lemma_pixel_position(left, top, row, col, p);
}

/// A pixel lies inside the screen if the sprite lights it.
pub(crate) proof fn lemma_lit_on_screen(
    before: Machine,
    left: u8,
    top: u8,
    height: u8,
    rows: int,
    cols: int,
    p: int,
)
    requires
        lit_before(before, left, top, height, rows, cols, p),
    ensures
        0 <= p < DISPLAY_SIZE,
{
    reveal(lit_before);
}

/// Drawing one more pixel of the sprite keeps `painted`.
pub(crate) proof fn lemma_painted_next(
    before: Machine,
    earlier: Machine,
    now: Machine,
    left: u8,
    top: u8,
    height: u8,
    row: int,
    col: int,
)
    requires
        before.registers.len() == NUM_REGISTERS,
        before.display.len() == DISPLAY_SIZE,
        0 <= row < height < 16,
        0 <= col < 8,
        painted(before, earlier, left, top, height, row, col),
        ({
            let p = pixel_position(left, top, row, col);
            if sprite_bit(before.memory[before.index + row], col as u8) {
                &&& now.display == earlier.display.update(p, earlier.display[p] ^ 1)
                &&& now.registers == if earlier.display[p] == 1 {
                    earlier.registers.update(FLAG as int, 1u8)
                } else {
                    earlier.registers
                }
                &&& now == (Machine {
                    display: now.display,
                    registers: now.registers,
                    ..earlier
                })
            } else {
                now == earlier
            }
        }),
    ensures
        painted(before, now, left, top, height, row, col + 1),
{
    let here = pixel_position(left, top, row, col);
    let bit = sprite_bit(before.memory[before.index + row], col as u8);
    lemma_pixel_position(left, top, row, col, here);
    lemma_lit_next(before, left, top, height, row, col, here);
    assert(!lit_before(before, left, top, height, row, col, here)) by {
        reveal(lit_before);
    }
    assert forall|p: int| 0 <= p < DISPLAY_SIZE implies #[trigger] now.display[p] == if lit_before(
        before,
        left,
        top,
        height,
        row,
        col + 1,
        p,
    ) {
        before.display[p] ^ 1
    } else {
        before.display[p]
    } by {
        lemma_lit_next(before, left, top, height, row, col, p);
    }
    let was = collided_before(before, left, top, height, row, col);
    let is = collided_before(before, left, top, height, row, col + 1);
    if was {
        let p = choose|p: int| #[trigger]
            lit_before(before, left, top, height, row, col, p) && before.display[p] == 1;
        lemma_lit_on_screen(before, left, top, height, row, col, p);
        lemma_lit_next(before, left, top, height, row, col, p);
        assert(is);
    }
    if bit && before.display[here] == 1 {
        assert(lit_before(before, left, top, height, row, col + 1, here));
        assert(is);
    }
    if is {
        let p = choose|p: int| #[trigger]
            lit_before(before, left, top, height, row, col + 1, p) && before.display[p] == 1;
        lemma_lit_on_screen(before, left, top, height, row, col + 1, p);
        lemma_lit_next(before, left, top, height, row, col, p);
        assert(was || (bit && before.display[here] == 1));
    }
    assert(now.registers =~= before.registers.update(
        FLAG as int,
        if is {
            1u8
        } else {
            0u8
        },
    ));
}

/// Once the eight columns of a row are drawn, the next row begins.
pub(crate) proof fn lemma_painted_row(
    before: Machine,
    now: Machine,
    left: u8,
    top: u8,
    height: u8,
    row: int,
)
    requires
        0 <= row < height,
        painted(before, now, left, top, height, row, 8),
    ensures
        painted(before, now, left, top, height, row + 1, 0),
{
    assert forall|p: int|
        lit_before(before, left, top, height, row, 8, p) == lit_before(
            before,
            left,
            top,
            height,
            row + 1,
            0,
            p,
        ) by {
        reveal(lit_before);
    }
    let was = collided_before(before, left, top, height, row, 8);
    let is = collided_before(before, left, top, height, row + 1, 0);
    if was {
        let p = choose|p: int| #[trigger]
            lit_before(before, left, top, height, row, 8, p) && before.display[p] == 1;
        assert(lit_before(before, left, top, height, row + 1, 0, p));
    }
    if is {
        let p = choose|p: int| #[trigger]
            lit_before(before, left, top, height, row + 1, 0, p) && before.display[p] == 1;
        assert(lit_before(before, left, top, height, row, 8, p));
    }
}

/// Before the first pixel is drawn, nothing but the flag has changed.
pub(crate) proof fn lemma_painted_none(before: Machine, now: Machine, left: u8, top: u8, height: u8)
    requires
        before.display.len() == DISPLAY_SIZE,
        now == (Machine { registers: before.registers.update(FLAG as int, 0u8), ..before }),
    ensures
        painted(before, now, left, top, height, 0, 0),
{
    assert forall|p: int| !lit_before(before, left, top, height, 0, 0, p) by {
        reveal(lit_before);
    }
}

/// Once every row is drawn, the sprite is on the screen.
pub(crate) proof fn lemma_painted_all(before: Machine, now: Machine, left: u8, top: u8, height: u8)
    requires
        painted(before, now, left, top, height, height as int, 0),
    ensures
        now.display == before.sprite_drawn(left, top, height),
        now.registers == before.registers.update(
            FLAG as int,
            if before.sprite_collides(left, top, height) {
                1u8
            } else {
                0u8
            },
        ),
{
    assert forall|p: int|
        lit_before(before, left, top, height, height as int, 0, p) == before.sprite_lights(
            left,
            top,
            height,
            p,
        ) by {
        reveal(lit_before);
    }
    assert(now.display =~= before.sprite_drawn(left, top, height));
    if collided_before(before, left, top, height, height as int, 0) {
        let p = choose|p: int| #[trigger]
            lit_before(before, left, top, height, height as int, 0, p) && before.display[p] == 1;
        assert(before.sprite_lights(left, top, height, p) && before.display[p] == 1);
    }
    if before.sprite_collides(left, top, height) {
        let p = choose|p: int| #[trigger]
            before.sprite_lights(left, top, height, p) && before.display[p] == 1;
        assert(lit_before(before, left, top, height, height as int, 0, p));
    }
}

} // verus!
