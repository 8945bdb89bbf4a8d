use vstd::prelude::*;
use crate::constants::{DISPLAY_HEIGHT, DISPLAY_SIZE, DISPLAY_WIDTH, MEMORY_SIZE};

verus! {

/// Whether the pixel in column `column` of a sprite row is set. Column 0 is the
/// leftmost pixel and the highest bit of the byte.
pub open spec fn sprite_bit(row: u8, column: int) -> bool
    recommends
        0 <= column < 8,
{
    row & (0x80u8 >> (column as u8)) != 0
}

/// The sprite column that falls on display pixel `pixel` when the sprite's left
/// edge is at `x`. Columns wrap around the display's right edge.
pub open spec fn column_in_sprite(x: u8, pixel: int) -> int {
    (pixel % (DISPLAY_WIDTH as int) - x) % (DISPLAY_WIDTH as int)
}

/// The sprite row that falls on display pixel `pixel` when the sprite's top edge
/// is at `y`. Rows wrap around the display's bottom edge.
pub open spec fn row_in_sprite(y: u8, pixel: int) -> int {
    (pixel / (DISPLAY_WIDTH as int) - y) % (DISPLAY_HEIGHT as int)
}

/// The rows of the sprite of `height` rows that lies in `memory` at `start`.
pub open spec fn sprite_rows(memory: Seq<u8>, start: int, height: int) -> Seq<u8> {
    Seq::new(height as nat, |row: int| memory[start + row])
}

/// Whether one of the first `count` bits of the sprite, taken row by row from
/// the top left, is set and falls on display pixel `pixel`.
pub open spec fn sprite_covers_upto(rows: Seq<u8>, x: u8, y: u8, count: int, pixel: int) -> bool {
    let column = column_in_sprite(x, pixel);
    let row = row_in_sprite(y, pixel);
    &&& column < 8
    &&& row < rows.len()
    &&& row * 8 + column < count
    &&& sprite_bit(rows[row], column)
}

/// Whether a set bit of the sprite falls on display pixel `pixel`.
///
/// The sprite is eight pixels wide and has one row for each byte of `rows`, at
/// most as many as the display has. Its top left corner lies at column
/// `x % 64` of row `y % 32`, and what would leave the display on the right or
/// at the bottom comes back in on the other side.
pub open spec fn sprite_covers(rows: Seq<u8>, x: u8, y: u8, pixel: int) -> bool
    recommends
        rows.len() <= DISPLAY_HEIGHT,
{
    sprite_covers_upto(rows, x, y, rows.len() as int * 8, pixel)
}

/// The frame after the first `count` bits of the sprite have been drawn.
pub open spec fn drawn_upto(frame: Seq<bool>, rows: Seq<u8>, x: u8, y: u8, count: int) -> Seq<
    bool,
> {
    Seq::new(frame.len(), |pixel: int| frame[pixel] != sprite_covers_upto(rows, x, y, count, pixel))
}

/// Whether one of the first `count` bits of the sprite turns off a pixel.
pub open spec fn collides_upto(frame: Seq<bool>, rows: Seq<u8>, x: u8, y: u8, count: int) -> bool {
    exists|pixel: int|
        0 <= pixel < frame.len() && frame[pixel] && #[trigger] sprite_covers_upto(
            rows,
            x,
            y,
            count,
            pixel,
        )
}

/// The frame after the sprite has been drawn onto it: every pixel on which a
/// set bit of the sprite falls is toggled, every other pixel is kept.
pub open spec fn drawn(frame: Seq<bool>, rows: Seq<u8>, x: u8, y: u8) -> Seq<bool> {
    Seq::new(frame.len(), |pixel: int| frame[pixel] != sprite_covers(rows, x, y, pixel))
}

/// Whether drawing the sprite turns off a pixel that was on.
pub open spec fn collides(frame: Seq<bool>, rows: Seq<u8>, x: u8, y: u8) -> bool {
    exists|pixel: int|
        0 <= pixel < frame.len() && frame[pixel] && #[trigger] sprite_covers(rows, x, y, pixel)
}

/// The display pixel on which the bit in row `row` and column `column` of a
/// sprite at `x`, `y` falls.
pub open spec fn target_pixel(x: u8, y: u8, row: int, column: int) -> int {
    ((y + row) % (DISPLAY_HEIGHT as int)) * DISPLAY_WIDTH + (x + column) % (DISPLAY_WIDTH as int)
}

/// Among the columns of the display, only the one at distance `delta` to the
/// right of `base`, wrapping, lies at that distance.
proof fn lemma_wrap_columns(base: int, delta: int, column: int)
    requires
        0 <= delta < DISPLAY_WIDTH,
        0 <= column < DISPLAY_WIDTH,
    ensures
        ((column - base) % (DISPLAY_WIDTH as int) == delta) <==> (column == (base + delta) % (
        DISPLAY_WIDTH as int)),
{
}

/// Among the rows of the display, only the one at distance `delta` below
/// `base`, wrapping, lies at that distance.
proof fn lemma_wrap_rows(base: int, delta: int, row: int)
    requires
        0 <= delta < DISPLAY_HEIGHT,
        0 <= row < DISPLAY_HEIGHT,
    ensures
        ((row - base) % (DISPLAY_HEIGHT as int) == delta) <==> (row == (base + delta) % (
        DISPLAY_HEIGHT as int)),
{
}

/// A sprite bit falls on exactly one pixel, and that pixel leads back to it.
proof fn lemma_target_pixel(x: u8, y: u8, row: int, column: int)
    requires
        0 <= row < DISPLAY_HEIGHT,
        0 <= column < 8,
    ensures
        0 <= target_pixel(x, y, row, column) < DISPLAY_SIZE,
        column_in_sprite(x, target_pixel(x, y, row, column)) == column,
        row_in_sprite(y, target_pixel(x, y, row, column)) == row,
        forall|pixel: int|
            0 <= pixel < DISPLAY_SIZE && column_in_sprite(x, pixel) == column && row_in_sprite(
                y,
                pixel,
            ) == row ==> pixel == target_pixel(x, y, row, column),
{
    let width = DISPLAY_WIDTH as int;
    let across = (x + column) % width;
    let down = (y + row) % (DISPLAY_HEIGHT as int);
    let target = down * width + across;
    assert(target == target_pixel(x, y, row, column));
    assert(target % width == across && target / width == down);
    lemma_wrap_columns(x as int, column, across);
    lemma_wrap_rows(y as int, row, down);
    assert forall|pixel: int|
        0 <= pixel < DISPLAY_SIZE && column_in_sprite(x, pixel) == column && row_in_sprite(
            y,
            pixel,
        ) == row implies pixel == target by {
        lemma_wrap_columns(x as int, column, pixel % width);
        lemma_wrap_rows(y as int, row, pixel / width);
        assert(pixel == (pixel / width) * width + pixel % width);
    }
}

/// Draws onto `frame` the sprite whose rows are the `height` bytes of `memory`
/// that begin at `start`, with its top left corner at `x`, `y`, and tells
/// whether a pixel that was on has been turned off.
pub fn draw_sprite(
    frame: &mut [bool; DISPLAY_SIZE],
    memory: &[u8; MEMORY_SIZE],
    start: usize,
    height: usize,
    x: u8,
    y: u8,
) -> (collision: bool)
    requires
        height > 0 ==> start + height <= MEMORY_SIZE,
        height <= DISPLAY_HEIGHT,
    ensures
        final(frame)@ == drawn(old(frame)@, sprite_rows(memory@, start as int, height as int), x, y),
        collision == collides(old(frame)@, sprite_rows(memory@, start as int, height as int), x, y),
    no_unwind
{
    let ghost before = frame@;
    let ghost rows = sprite_rows(memory@, start as int, height as int);
    let mut collision = false;
    let mut row: usize = 0;
    assert(frame@ =~= drawn_upto(before, rows, x, y, 0));
    while row < height
        invariant
            row <= height <= DISPLAY_HEIGHT,
            height > 0 ==> start + height <= MEMORY_SIZE,
            before.len() == DISPLAY_SIZE,
            rows == sprite_rows(memory@, start as int, height as int),
            frame@ == drawn_upto(before, rows, x, y, row * 8),
            collision == collides_upto(before, rows, x, y, row * 8),
        decreases height - row,
    {
        let line: u8 = memory[start + row];
        let top: usize = (y as usize + row) % DISPLAY_HEIGHT;
        let mut column: usize = 0;
        while column < 8
            invariant
                row < height <= DISPLAY_HEIGHT,
                column <= 8,
                before.len() == DISPLAY_SIZE,
                rows.len() == height,
                line == rows[row as int],
                top == (y + row) % (DISPLAY_HEIGHT as int),
                frame@ == drawn_upto(before, rows, x, y, row * 8 + column),
                collision == collides_upto(before, rows, x, y, row * 8 + column),
            decreases 8 - column,
        {
            let bit: bool = line & (0x80u8 >> (column as u8)) != 0;
            let pixel: usize = top * DISPLAY_WIDTH + (x as usize + column) % DISPLAY_WIDTH;
            let ghost count = row * 8 + column;
            proof {
                lemma_target_pixel(x, y, row as int, column as int);
                assert(pixel == target_pixel(x, y, row as int, column as int));
                assert(bit == sprite_bit(line, column as int));
            }
            if bit {
                if frame[pixel] {
                    collision = true;
                }
                frame[pixel] = !frame[pixel];
            }
            proof {
                assert forall|other: int| 0 <= other < DISPLAY_SIZE implies sprite_covers_upto(
                    rows,
                    x,
                    y,
                    count + 1,
                    other,
                ) == (sprite_covers_upto(rows, x, y, count, other) || (other == pixel && bit)) by {}
                assert(!sprite_covers_upto(rows, x, y, count, pixel as int));
                assert(frame@ =~= drawn_upto(before, rows, x, y, count + 1));
                if collides_upto(before, rows, x, y, count) {
                    let witness = choose|other: int|
                        0 <= other < before.len() && before[other] && #[trigger] sprite_covers_upto(
                            rows,
                            x,
                            y,
                            count,
                            other,
                        );
                    assert(sprite_covers_upto(rows, x, y, count + 1, witness));
                }
                if bit && before[pixel as int] {
                    assert(sprite_covers_upto(rows, x, y, count + 1, pixel as int));
                }
                if collides_upto(before, rows, x, y, count + 1) {
                    let witness = choose|other: int|
                        0 <= other < before.len() && before[other] && #[trigger] sprite_covers_upto(
                            rows,
                            x,
                            y,
                            count + 1,
                            other,
                        );
                    if witness != pixel {
                        assert(sprite_covers_upto(rows, x, y, count, witness));
                    }
                }
            }
            column += 1;
        }
        row += 1;
    }
    proof {
        assert(frame@ =~= drawn(before, rows, x, y));
        if collides_upto(before, rows, x, y, height * 8) {
            let witness = choose|other: int|
                0 <= other < before.len() && before[other] && #[trigger] sprite_covers_upto(
                    rows,
                    x,
                    y,
                    height * 8,
                    other,
                );
            assert(sprite_covers(rows, x, y, witness));
        }
        if collides(before, rows, x, y) {
            let witness = choose|other: int|
                0 <= other < before.len() && before[other] && #[trigger] sprite_covers(
                    rows,
                    x,
                    y,
                    other,
                );
            assert(sprite_covers_upto(rows, x, y, height * 8, witness));
        }
    }
    collision
}

/// Drawing the same sprite at the same place twice gives back the frame as it
/// was. The second draw reports a collision exactly when the sprite has a set
/// bit on some pixel that was off before the first draw: the first draw turned
/// that pixel on and the second turns it off again.
pub proof fn lemma_draw_twice_restores(frame: Seq<bool>, rows: Seq<u8>, x: u8, y: u8)
    ensures
        drawn(drawn(frame, rows, x, y), rows, x, y) == frame,
        collides(drawn(frame, rows, x, y), rows, x, y) <==> exists|pixel: int|
            0 <= pixel < frame.len() && !frame[pixel] && #[trigger] sprite_covers(
                rows,
                x,
                y,
                pixel,
            ),
{
    let once = drawn(frame, rows, x, y);
    assert(drawn(once, rows, x, y) =~= frame);
    if collides(once, rows, x, y) {
        let pixel = choose|pixel: int|
            0 <= pixel < once.len() && once[pixel] && #[trigger] sprite_covers(rows, x, y, pixel);
        assert(!frame[pixel] && sprite_covers(rows, x, y, pixel));
    }
    if exists|pixel: int|
        0 <= pixel < frame.len() && !frame[pixel] && #[trigger] sprite_covers(rows, x, y, pixel) {
        let pixel = choose|pixel: int|
            0 <= pixel < frame.len() && !frame[pixel] && #[trigger] sprite_covers(
                rows,
                x,
                y,
                pixel,
            );
        assert(once[pixel] && sprite_covers(rows, x, y, pixel));
    }
}

} // verus!
