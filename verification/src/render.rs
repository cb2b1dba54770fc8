use vstd::prelude::*;

use crate::app::{App, AppView, InputMode};
use crate::camera::CameraView;
use crate::direction::{delta_x, delta_y, Direction};
use crate::game::{direction_at, GameView, PlayState};
use crate::grid::Cell;
use crate::position::Position;

verus! {

/// Bytes of the 128 by 64 monochrome screen: each byte holds a column of
/// eight pixels of one eight-pixel-high page, least significant bit on top.
pub const FRAMEBUFFER_SIZE: usize = 1024;

/// Whether bit `k` of `b` is set.
pub open spec fn bit_set(b: u8, k: u8) -> bool {
    (b >> k) & 1u8 == 1u8
}

/// Whether `(x, y)` lies on the screen.
pub open spec fn on_screen(x: int, y: int) -> bool {
    0 <= x < 128 && 0 <= y < 64
}

/// Index of the byte holding pixel `(x, y)`.
pub open spec fn pixel_byte(x: int, y: int) -> int {
    (y / 8) * 128 + x
}

/// `new` has the length of `old` and the same bytes past the screen.
pub open spec fn same_tail(old: Seq<u8>, new: Seq<u8>) -> bool {
    &&& new.len() == old.len()
    &&& forall|i: int| FRAMEBUFFER_SIZE <= i < old.len() ==> new[i] == old[i]
}

/// Whether `(a, b)` lies in the `w` by `h` rectangle at `(x, y)`.
pub open spec fn in_rect(a: int, b: int, x: int, y: int, w: int, h: int) -> bool {
    x <= a < x + w && y <= b < y + h
}

/// Whether pixel `(x, y)` of the frame is lit.
pub open spec fn lit(fb: Seq<u8>, x: int, y: int) -> bool {
    bit_set(fb[pixel_byte(x, y)], (y % 8) as u8)
}

proof fn lemma_bit_or(v: u8, k: u8, j: u8)
    requires
        k < 8,
        j < 8,
    ensures
        bit_set(v | (1u8 << k), j) == (j == k || bit_set(v, j)),
{
    assert(((v | (1u8 << k)) >> j) & 1u8 == 1u8 <==> (j == k || (v >> j) & 1u8 == 1u8))
        by (bit_vector)
        requires
            k < 8,
            j < 8,
    ;
}

proof fn lemma_bit_clear(v: u8, k: u8, j: u8)
    requires
        k < 8,
        j < 8,
    ensures
        bit_set(v & !(1u8 << k), j) == (j != k && bit_set(v, j)),
{
    assert(((v & !(1u8 << k)) >> j) & 1u8 == 1u8 <==> (j != k && (v >> j) & 1u8 == 1u8))
        by (bit_vector)
        requires
            k < 8,
            j < 8,
    ;
}

proof fn lemma_bit_zero(j: u8)
    requires
        j < 8,
    ensures
        !bit_set(0u8, j),
{
    assert((0u8 >> j) & 1u8 != 1u8) by (bit_vector);
}

/// Two on-screen pixels share a byte only in the same column and page, and
/// then they sit at different bits unless they are the same pixel.
proof fn lemma_pixel_byte(a: int, b: int, x: int, y: int)
    requires
        on_screen(a, b),
        on_screen(x, y),
    ensures
        0 <= pixel_byte(a, b) < FRAMEBUFFER_SIZE,
        pixel_byte(a, b) == pixel_byte(x, y) ==> a == x && b / 8 == y / 8,
        pixel_byte(a, b) == pixel_byte(x, y) && (a != x || b != y) ==> b % 8 != y % 8,
        0 <= b % 8 < 8,
{
}

/// Every pixel of a cleared frame is dark.
proof fn lemma_dark_frame(fb: Seq<u8>)
    requires
        fb.len() >= FRAMEBUFFER_SIZE,
        forall|i: int| 0 <= i < FRAMEBUFFER_SIZE ==> fb[i] == 0u8,
    ensures
        forall|a: int, b: int| on_screen(a, b) ==> !lit(fb, a, b),
{
    assert forall|a: int, b: int| on_screen(a, b) implies !lit(fb, a, b) by {
        lemma_pixel_byte(a, b, a, b);
        lemma_bit_zero((b % 8) as u8);
    }
}

/// Turn on pixel `(x, y)`; pixels off the screen are ignored.
pub fn set_pixel(framebuffer: &mut [u8], x: i16, y: i16)
    requires
        old(framebuffer)@.len() >= FRAMEBUFFER_SIZE,
    ensures
        final(framebuffer)@.len() == old(framebuffer)@.len(),
        forall|i: int|
            FRAMEBUFFER_SIZE <= i < old(framebuffer)@.len() ==> final(framebuffer)@[i] == old(
                framebuffer,
            )@[i],
        forall|a: int, b: int|
            on_screen(a, b) ==> lit(final(framebuffer)@, a, b) == (lit(old(framebuffer)@, a, b) || (
            a == x && b == y)),
{
    if x < 0 || y < 0 {
        return;
    }
    let x = x as usize;
    let y = y as usize;
    if x >= 128 || y >= 64 {
        return;
    }
    let index = (y / 8) * 128 + x;
    let bit = (y % 8) as u8;
    let byte = framebuffer[index];
    framebuffer[index] = byte | (1u8 << bit);
    proof {
        let old_fb = old(framebuffer)@;
        let new_fb = framebuffer@;
        assert forall|a: int, b: int| on_screen(a, b) implies lit(new_fb, a, b) == (lit(
            old_fb,
            a,
            b,
        ) || (a == x && b == y)) by {
            lemma_pixel_byte(a, b, x as int, y as int);
            if pixel_byte(a, b) == index {
                lemma_bit_or(byte, bit, (b % 8) as u8);
            }
        }
    }
}

/// Turn off pixel `(x, y)`; pixels off the screen are ignored.
pub fn clear_pixel(framebuffer: &mut [u8], x: i16, y: i16)
    requires
        old(framebuffer)@.len() >= FRAMEBUFFER_SIZE,
    ensures
        final(framebuffer)@.len() == old(framebuffer)@.len(),
        forall|i: int|
            FRAMEBUFFER_SIZE <= i < old(framebuffer)@.len() ==> final(framebuffer)@[i] == old(
                framebuffer,
            )@[i],
        forall|a: int, b: int|
            on_screen(a, b) ==> lit(final(framebuffer)@, a, b) == (lit(old(framebuffer)@, a, b) && !(
            a == x && b == y)),
{
    if x < 0 || y < 0 {
        return;
    }
    let x = x as usize;
    let y = y as usize;
    if x >= 128 || y >= 64 {
        return;
    }
    let index = (y / 8) * 128 + x;
    let bit = (y % 8) as u8;
    let byte = framebuffer[index];
    framebuffer[index] = byte & !(1u8 << bit);
    proof {
        let old_fb = old(framebuffer)@;
        let new_fb = framebuffer@;
        assert forall|a: int, b: int| on_screen(a, b) implies lit(new_fb, a, b) == (lit(
            old_fb,
            a,
            b,
        ) && !(a == x && b == y)) by {
            lemma_pixel_byte(a, b, x as int, y as int);
            if pixel_byte(a, b) == index {
                lemma_bit_clear(byte, bit, (b % 8) as u8);
            }
        }
    }
}

/// Light every pixel of the `width` by `height` rectangle at `(x, y)`.
pub fn fill_rect(framebuffer: &mut [u8], x: i16, y: i16, width: i16, height: i16)
    requires
        old(framebuffer)@.len() >= FRAMEBUFFER_SIZE,
        x + width <= i16::MAX,
        y + height <= i16::MAX,
        x + width >= i16::MIN,
        y + height >= i16::MIN,
    ensures
        same_tail(old(framebuffer)@, final(framebuffer)@),
        forall|a: int, b: int|
            on_screen(a, b) ==> lit(final(framebuffer)@, a, b) == (lit(old(framebuffer)@, a, b)
                || in_rect(a, b, x as int, y as int, width as int, height as int)),
{
    if width <= 0 || height <= 0 {
        return;
    }
    let mut py = y;
    while py < y + height
        invariant
            y <= py <= y + height,
            0 < width,
            0 < height,
            x + width <= i16::MAX,
            y + height <= i16::MAX,
            old(framebuffer)@.len() >= FRAMEBUFFER_SIZE,
            same_tail(old(framebuffer)@, framebuffer@),
            forall|a: int, b: int|
                on_screen(a, b) ==> lit(framebuffer@, a, b) == (lit(old(framebuffer)@, a, b)
                    || in_rect(a, b, x as int, y as int, width as int, py - y)),
        decreases y + height - py,
    {
        let mut px = x;
        while px < x + width
            invariant
                x <= px <= x + width,
                y <= py < y + height,
                0 < width,
                0 < height,
                x + width <= i16::MAX,
                y + height <= i16::MAX,
                old(framebuffer)@.len() >= FRAMEBUFFER_SIZE,
                same_tail(old(framebuffer)@, framebuffer@),
                forall|a: int, b: int|
                    on_screen(a, b) ==> lit(framebuffer@, a, b) == (lit(old(framebuffer)@, a, b)
                        || in_rect(a, b, x as int, y as int, width as int, py - y) || (b == py
                        && x <= a < px)),
            decreases x + width - px,
        {
            set_pixel(framebuffer, px, py);
            px = px + 1;
        }
        py = py + 1;
    }
}

/// Darken the `length` pixels of row `y` starting at column `x`.
fn clear_row(framebuffer: &mut [u8], x: i16, y: i16, length: i16)
    requires
        old(framebuffer)@.len() >= FRAMEBUFFER_SIZE,
        -8000 <= x <= 8000,
        -8000 <= y <= 8000,
        0 <= length <= 100,
    ensures
        same_tail(old(framebuffer)@, final(framebuffer)@),
        forall|a: int, b: int|
            on_screen(a, b) ==> lit(final(framebuffer)@, a, b) == (lit(old(framebuffer)@, a, b)
                && !(b == y && x <= a < x + length)),
{
    let mut px = x;
    while px < x + length
        invariant
            x <= px <= x + length,
            -8000 <= x <= 8000,
            -8000 <= y <= 8000,
            0 <= length <= 100,
            old(framebuffer)@.len() >= FRAMEBUFFER_SIZE,
            same_tail(old(framebuffer)@, framebuffer@),
            forall|a: int, b: int|
                on_screen(a, b) ==> lit(framebuffer@, a, b) == (lit(old(framebuffer)@, a, b)
                    && !(b == y && x <= a < px)),
        decreases x + length - px,
    {
        clear_pixel(framebuffer, px, y);
        px = px + 1;
    }
}

/// The outline of the square `inset` pixels inside a tile.
pub open spec fn outline(inset: int, lx: int, ly: int) -> bool {
    let size = 12 - 2 * inset;
    ||| inset <= lx < inset + size && (ly == inset || ly == inset + size - 1)
    ||| inset <= ly < inset + size && (lx == inset || lx == inset + size - 1)
}

/// The pixels a cell's picture lights, in coordinates local to its 12 by 12
/// tile: a wall is solid but for two dark rows; a portal is three nested
/// squares; the player is a block with a sword pointing the way they face;
/// a rat is a low body with two ears and a nose; a web is the tile's two
/// diagonals.
pub open spec fn tile_pixel(cell: Cell, facing: Direction, lx: int, ly: int) -> bool {
    let dx = delta_x(facing);
    let dy = delta_y(facing);
    match cell {
        Cell::Empty => false,
        Cell::Wall => ly != 2 && ly != 8,
        Cell::Portal => outline(1, lx, ly) || outline(3, lx, ly) || outline(5, lx, ly),
        Cell::Player => in_rect(lx, ly, 3, 3, 6, 6) || (lx == 6 + 5 * dx && ly == 6 + 5 * dy) || (
        lx == 6 + 4 * dx && ly == 6 + 4 * dy),
        Cell::Rat => in_rect(lx, ly, 3, 5, 6, 4) || (lx == 3 && ly == 3) || (lx == 8 && ly == 3)
            || (lx == 6 + 4 * dx && ly == 6 + 4 * dy),
        Cell::Web => lx == ly || lx + ly == 11,
    }
}

/// The pixels of its tile a cell's picture darkens.
pub open spec fn tile_clears(cell: Cell, lx: int, ly: int) -> bool {
    cell == Cell::Wall && (ly == 2 || ly == 8)
}

/// `new` is `old` with `cell` drawn in the tile whose corner is at `(x, y)`.
pub open spec fn tile_drawn(
    old: Seq<u8>,
    new: Seq<u8>,
    x: int,
    y: int,
    cell: Cell,
    facing: Direction,
) -> bool {
    &&& same_tail(old, new)
    &&& forall|a: int, b: int|
        on_screen(a, b) ==> lit(new, a, b) == if in_rect(a, b, x, y, 12, 12) {
            (lit(old, a, b) && !tile_clears(cell, a - x, b - y)) || tile_pixel(
                cell,
                facing,
                a - x,
                b - y,
            )
        } else {
            lit(old, a, b)
        }
}

/// A solid tile with two dark rows.
fn draw_wall(framebuffer: &mut [u8], x: i16, y: i16)
    requires
        old(framebuffer)@.len() >= FRAMEBUFFER_SIZE,
        -4000 <= x <= 4000,
        -4000 <= y <= 4000,
    ensures
        tile_drawn(old(framebuffer)@, final(framebuffer)@, x as int, y as int, Cell::Wall, Direction::North),
{
    fill_rect(framebuffer, x, y, 12, 12);
    clear_row(framebuffer, x, y + 2, 12);
    clear_row(framebuffer, x, y + 8, 12);
}

/// The outline of the square `inset` pixels inside the tile at `(x, y)`.
fn draw_outline(framebuffer: &mut [u8], x: i16, y: i16, inset: i16)
    requires
        old(framebuffer)@.len() >= FRAMEBUFFER_SIZE,
        -4000 <= x <= 4000,
        -4000 <= y <= 4000,
        1 <= inset <= 5,
    ensures
        same_tail(old(framebuffer)@, final(framebuffer)@),
        forall|a: int, b: int|
            on_screen(a, b) ==> lit(final(framebuffer)@, a, b) == (lit(old(framebuffer)@, a, b)
                || outline(inset as int, a - x, b - y)),
{
    let size = 12 - inset * 2;
    let mut px = x + inset;
    while px < x + inset + size
        invariant
            x + inset <= px <= x + inset + size,
            size == 12 - inset * 2,
            -4000 <= x <= 4000,
            -4000 <= y <= 4000,
            1 <= inset <= 5,
            old(framebuffer)@.len() >= FRAMEBUFFER_SIZE,
            same_tail(old(framebuffer)@, framebuffer@),
            forall|a: int, b: int|
                on_screen(a, b) ==> lit(framebuffer@, a, b) == (lit(old(framebuffer)@, a, b) || (x
                    + inset <= a < px && (b == y + inset || b == y + inset + size - 1))),
        decreases x + inset + size - px,
    {
        set_pixel(framebuffer, px, y + inset);
        set_pixel(framebuffer, px, y + inset + size - 1);
        px = px + 1;
    }
    let mut py = y + inset;
    while py < y + inset + size
        invariant
            y + inset <= py <= y + inset + size,
            size == 12 - inset * 2,
            -4000 <= x <= 4000,
            -4000 <= y <= 4000,
            1 <= inset <= 5,
            old(framebuffer)@.len() >= FRAMEBUFFER_SIZE,
            same_tail(old(framebuffer)@, framebuffer@),
            forall|a: int, b: int|
                on_screen(a, b) ==> lit(framebuffer@, a, b) == (lit(old(framebuffer)@, a, b) || (x
                    + inset <= a < x + inset + size && (b == y + inset || b == y + inset + size
                    - 1)) || (y + inset <= b < py && (a == x + inset || a == x + inset + size - 1))),
        decreases y + inset + size - py,
    {
        set_pixel(framebuffer, x + inset, py);
        set_pixel(framebuffer, x + inset + size - 1, py);
        py = py + 1;
    }
}

/// Three nested squares.
fn draw_portal(framebuffer: &mut [u8], x: i16, y: i16)
    requires
        old(framebuffer)@.len() >= FRAMEBUFFER_SIZE,
        -4000 <= x <= 4000,
        -4000 <= y <= 4000,
    ensures
        tile_drawn(old(framebuffer)@, final(framebuffer)@, x as int, y as int, Cell::Portal, Direction::North),
{
    draw_outline(framebuffer, x, y, 1);
    draw_outline(framebuffer, x, y, 3);
    draw_outline(framebuffer, x, y, 5);
}

/// A block with a sword pointing toward `direction`.
fn draw_player(framebuffer: &mut [u8], x: i16, y: i16, direction: Direction)
    requires
        old(framebuffer)@.len() >= FRAMEBUFFER_SIZE,
        -4000 <= x <= 4000,
        -4000 <= y <= 4000,
    ensures
        tile_drawn(old(framebuffer)@, final(framebuffer)@, x as int, y as int, Cell::Player, direction),
{
    fill_rect(framebuffer, x + 3, y + 3, 6, 6);
    let (dx, dy) = direction.delta();
    let dx = dx as i16;
    let dy = dy as i16;
    set_pixel(framebuffer, x + 6 + dx * 5, y + 6 + dy * 5);
    set_pixel(framebuffer, x + 6 + dx * 4, y + 6 + dy * 4);
}

/// A rat's body, ears and nose, the nose toward `direction`.
fn draw_rat(framebuffer: &mut [u8], x: i16, y: i16, direction: Direction)
    requires
        old(framebuffer)@.len() >= FRAMEBUFFER_SIZE,
        -4000 <= x <= 4000,
        -4000 <= y <= 4000,
    ensures
        tile_drawn(old(framebuffer)@, final(framebuffer)@, x as int, y as int, Cell::Rat, direction),
{
    fill_rect(framebuffer, x + 3, y + 5, 6, 4);
    set_pixel(framebuffer, x + 3, y + 3);
    set_pixel(framebuffer, x + 8, y + 3);
    let (dx, dy) = direction.delta();
    set_pixel(framebuffer, x + 6 + dx as i16 * 4, y + 6 + dy as i16 * 4);
}

/// The two diagonals of the tile.
fn draw_web(framebuffer: &mut [u8], x: i16, y: i16)
    requires
        old(framebuffer)@.len() >= FRAMEBUFFER_SIZE,
        -4000 <= x <= 4000,
        -4000 <= y <= 4000,
    ensures
        tile_drawn(old(framebuffer)@, final(framebuffer)@, x as int, y as int, Cell::Web, Direction::North),
{
    let mut i: i16 = 0;
    while i < 12
        invariant
            0 <= i <= 12,
            -4000 <= x <= 4000,
            -4000 <= y <= 4000,
            old(framebuffer)@.len() >= FRAMEBUFFER_SIZE,
            same_tail(old(framebuffer)@, framebuffer@),
            forall|a: int, b: int|
                on_screen(a, b) ==> lit(framebuffer@, a, b) == (lit(old(framebuffer)@, a, b) || (0
                    <= a - x < i && (b - y == a - x || b - y == 11 - (a - x)))),
        decreases 12 - i,
    {
        set_pixel(framebuffer, x + i, y + i);
        set_pixel(framebuffer, x + i, y + 11 - i);
        i = i + 1;
    }
}

/// The status badge: a block at the left edge for a won puzzle, at the
/// right edge for a lost one.
pub open spec fn status_pixel(state: PlayState, a: int, b: int) -> bool {
    match state {
        PlayState::Playing => false,
        PlayState::Won => in_rect(a, b, 4, 26, 8, 12),
        PlayState::GameOver => in_rect(a, b, 116, 26, 8, 12),
    }
}

/// The camera-mode badge in the top-left corner: a square with a small ring inside.
pub open spec fn indicator_pixel(a: int, b: int) -> bool {
    ||| 1 <= a < 9 && (b == 1 || b == 8)
    ||| 1 <= b < 9 && (a == 1 || a == 8)
    ||| (a == 4 || a == 5) && (b == 3 || b == 6)
    ||| (a == 3 || a == 6) && (b == 4 || b == 5)
}

/// The picture of the grid cell under screen pixel `(a, b)`, if any.
pub open spec fn tiles_pixel(g: GameView, camera: CameraView, a: int, b: int) -> bool {
    let wx = a + camera.x;
    let wy = b + camera.y;
    let tx = wx / 12;
    let ty = wy / 12;
    let position = Position { x: tx as i8, y: ty as i8 };
    let cell = g.grid.cell_at(position);
    let facing = if cell == Cell::Player {
        g.player_direction
    } else {
        direction_at(g.rats, position)
    };
    &&& 0 <= tx < g.grid.width
    &&& 0 <= ty < g.grid.height
    &&& tile_pixel(cell, facing, wx - 12 * tx, wy - 12 * ty)
}

/// Whether screen pixel `(a, b)` is lit in the picture of the application:
/// the visible part of the grid, then the status badge, then the camera-mode
/// badge.
pub open spec fn frame_pixel(v: AppView, a: int, b: int) -> bool {
    ||| tiles_pixel(v.game, v.camera, a, b)
    ||| status_pixel(v.game.state, a, b)
    ||| v.input_mode == InputMode::Camera && indicator_pixel(a, b)
}

/// Law: a won puzzle shows a solid 8 by 12 badge at the left edge, from
/// (4, 26) to (11, 37), and leaves the place of the right badge, from
/// (116, 26) to (123, 37), to the tiles; a lost puzzle shows the right badge
/// and leaves the left place to the tiles; a puzzle in play shows neither.
pub proof fn lemma_status_badges(v: AppView, a: int, b: int)
    ensures
        ({
            let left = 4 <= a < 12 && 26 <= b < 38;
            let right = 116 <= a < 124 && 26 <= b < 38;
            let tiles = tiles_pixel(v.game, v.camera, a, b);
            &&& v.game.state == PlayState::Won && left ==> frame_pixel(v, a, b)
            &&& v.game.state == PlayState::Won && right ==> frame_pixel(v, a, b) == tiles
            &&& v.game.state == PlayState::GameOver && right ==> frame_pixel(v, a, b)
            &&& v.game.state == PlayState::GameOver && left ==> frame_pixel(v, a, b) == tiles
            &&& v.game.state == PlayState::Playing && (left || right) ==> frame_pixel(v, a, b)
                == tiles
        }),
{
}

/// Show the play state: a block at the left edge when won, a block with a
/// cross at the right edge when lost.
fn draw_status(framebuffer: &mut [u8], won: bool)
    requires
        old(framebuffer)@.len() >= FRAMEBUFFER_SIZE,
    ensures
        same_tail(old(framebuffer)@, final(framebuffer)@),
        forall|a: int, b: int|
            on_screen(a, b) ==> lit(final(framebuffer)@, a, b) == (lit(old(framebuffer)@, a, b)
                || in_rect(a, b, if won { 4 } else { 116 }, 26, 8, 12)),
{
    let x: i16 = if won {
        4
    } else {
        116
    };
    fill_rect(framebuffer, x, 26, 8, 12);
    if won {
        fill_rect(framebuffer, x + 2, 28, 4, 6);
    } else {
        let mut i: i16 = 0;
        while i < 6
            invariant
                0 <= i <= 6,
                x == 116,
                old(framebuffer)@.len() >= FRAMEBUFFER_SIZE,
                same_tail(old(framebuffer)@, framebuffer@),
                forall|a: int, b: int|
                    on_screen(a, b) ==> lit(framebuffer@, a, b) == (lit(old(framebuffer)@, a, b)
                        || in_rect(a, b, 116, 26, 8, 12)),
            decreases 6 - i,
        {
            set_pixel(framebuffer, x + 1 + i, 28 + i);
            set_pixel(framebuffer, x + 6 - i, 28 + i);
            i = i + 1;
        }
    }
}

/// The badge shown while the d-pad moves the camera.
fn draw_camera_mode_indicator(framebuffer: &mut [u8])
    requires
        old(framebuffer)@.len() >= FRAMEBUFFER_SIZE,
    ensures
        same_tail(old(framebuffer)@, final(framebuffer)@),
        forall|a: int, b: int|
            on_screen(a, b) ==> lit(final(framebuffer)@, a, b) == (lit(old(framebuffer)@, a, b)
                || indicator_pixel(a, b)),
{
    let mut x: i16 = 1;
    while x < 9
        invariant
            1 <= x <= 9,
            old(framebuffer)@.len() >= FRAMEBUFFER_SIZE,
            same_tail(old(framebuffer)@, framebuffer@),
            forall|a: int, b: int|
                on_screen(a, b) ==> lit(framebuffer@, a, b) == (lit(old(framebuffer)@, a, b) || (1
                    <= a < x && (b == 1 || b == 8))),
        decreases 9 - x,
    {
        set_pixel(framebuffer, x, 1);
        set_pixel(framebuffer, x, 8);
        x = x + 1;
    }
    let mut y: i16 = 1;
    while y < 9
        invariant
            1 <= y <= 9,
            old(framebuffer)@.len() >= FRAMEBUFFER_SIZE,
            same_tail(old(framebuffer)@, framebuffer@),
            forall|a: int, b: int|
                on_screen(a, b) ==> lit(framebuffer@, a, b) == (lit(old(framebuffer)@, a, b) || (1
                    <= a < 9 && (b == 1 || b == 8)) || (1 <= b < y && (a == 1 || a == 8))),
        decreases 9 - y,
    {
        set_pixel(framebuffer, 1, y);
        set_pixel(framebuffer, 8, y);
        y = y + 1;
    }
    set_pixel(framebuffer, 4, 3);
    set_pixel(framebuffer, 5, 3);
    set_pixel(framebuffer, 3, 4);
    set_pixel(framebuffer, 6, 4);
    set_pixel(framebuffer, 3, 5);
    set_pixel(framebuffer, 6, 5);
    set_pixel(framebuffer, 4, 6);
    set_pixel(framebuffer, 5, 6);
}

/// The tile column (or row) of world coordinate `w` is `t` exactly when `w`
/// lies in that tile.
proof fn lemma_tile_of(w: int, t: int)
    ensures
        (12 * t <= w < 12 * t + 12) <==> w / 12 == t,
{
    assert(w == 12 * (w / 12) + w % 12 && 0 <= w % 12 < 12) by (nonlinear_arith);
}

/// Whether the tile under screen pixel `(a, b)` comes before tile `(x, y)`
/// in row-major order.
pub open spec fn tile_before(camera: CameraView, a: int, b: int, x: int, y: int) -> bool {
    let tx = (a + camera.x) / 12;
    let ty = (b + camera.y) / 12;
    ty < y || (ty == y && tx < x)
}

/// Draw the application: the visible part of the grid, the status badge once
/// the puzzle is won or lost, and the camera-mode badge in camera mode. The
/// whole buffer is cleared first.
pub fn render(app: &App, framebuffer: &mut [u8])
    requires
        old(framebuffer)@.len() >= FRAMEBUFFER_SIZE,
    ensures
        final(framebuffer)@.len() == old(framebuffer)@.len(),
        forall|i: int|
            FRAMEBUFFER_SIZE <= i < final(framebuffer)@.len() ==> final(framebuffer)@[i] == 0u8,
        forall|a: int, b: int|
            on_screen(a, b) ==> lit(final(framebuffer)@, a, b) == frame_pixel(app@, a, b),
{
    proof {
        use_type_invariant(app);
    }
    let mut i: usize = 0;
    while i < framebuffer.len()
        invariant
            0 <= i <= framebuffer@.len(),
            framebuffer@.len() == old(framebuffer)@.len(),
            forall|k: int| 0 <= k < i ==> framebuffer@[k] == 0u8,
        decreases framebuffer@.len() - i,
    {
        framebuffer[i] = 0;
        i = i + 1;
    }
    proof {
        lemma_dark_frame(framebuffer@);
    }
    let game = app.game();
    let camera = app.camera();
    let ghost v = app@;
    let ghost cam = v.camera;
    let ghost g = v.game;
    let width = game.width();
    let height = game.height();
    let cx = camera.x();
    let cy = camera.y();
    let mut y: u8 = 0;
    while y < height
        invariant
            v == app@,
            v.wf(),
            cam == v.camera,
            g == v.game,
            g == game@,
            cx == cam.x,
            cy == cam.y,
            width == g.grid.width,
            height == g.grid.height,
            0 <= y <= height,
            framebuffer@.len() == old(framebuffer)@.len(),
            old(framebuffer)@.len() >= FRAMEBUFFER_SIZE,
            forall|k: int| FRAMEBUFFER_SIZE <= k < framebuffer@.len() ==> framebuffer@[k] == 0u8,
            forall|a: int, b: int|
                on_screen(a, b) ==> lit(framebuffer@, a, b) == (tile_before(
                    cam,
                    a,
                    b,
                    0,
                    y as int,
                ) && tiles_pixel(g, cam, a, b)),
        decreases height - y,
    {
        let mut x: u8 = 0;
        while x < width
            invariant
                v == app@,
                v.wf(),
                cam == v.camera,
                g == v.game,
                g == game@,
                cx == cam.x,
                cy == cam.y,
                width == g.grid.width,
                height == g.grid.height,
                0 <= y < height,
                0 <= x <= width,
                framebuffer@.len() == old(framebuffer)@.len(),
                old(framebuffer)@.len() >= FRAMEBUFFER_SIZE,
                forall|k: int|
                    FRAMEBUFFER_SIZE <= k < framebuffer@.len() ==> framebuffer@[k] == 0u8,
                forall|a: int, b: int|
                    on_screen(a, b) ==> lit(framebuffer@, a, b) == (tile_before(
                        cam,
                        a,
                        b,
                        x as int,
                        y as int,
                    ) && tiles_pixel(g, cam, a, b)),
            decreases width - x,
        {
            proof {
                assert(x < 130 && y < 130) by (nonlinear_arith)
                    requires
                        x < width,
                        y < height,
                        width * height <= 130,
                ;
            }
            let position = Position::new(x as i8, y as i8);
            let screen_x = x as i16 * 12 - cx;
            let screen_y = y as i16 * 12 - cy;
            let ghost before = framebuffer@;
            let cell = game.cell(position);
            let facing = if cell == Cell::Player {
                game.player_direction()
            } else {
                game.rat_direction_at(position)
            };
            match cell {
                Cell::Empty => {},
                Cell::Wall => draw_wall(framebuffer, screen_x, screen_y),
                Cell::Portal => draw_portal(framebuffer, screen_x, screen_y),
                Cell::Player => draw_player(framebuffer, screen_x, screen_y, facing),
                Cell::Rat => draw_rat(framebuffer, screen_x, screen_y, facing),
                Cell::Web => draw_web(framebuffer, screen_x, screen_y),
            }
            proof {
                assert(tile_drawn(before, framebuffer@, screen_x as int, screen_y as int, cell, facing));
                assert forall|a: int, b: int| on_screen(a, b) implies lit(framebuffer@, a, b) == (
                tile_before(cam, a, b, x + 1, y as int) && tiles_pixel(g, cam, a, b)) by {
                    lemma_tile_of(a + cam.x, x as int);
                    lemma_tile_of(b + cam.y, y as int);
                }
            }
            x = x + 1;
        }
        proof {
            assert forall|a: int, b: int| on_screen(a, b) implies lit(framebuffer@, a, b) == (
            tile_before(cam, a, b, 0, y + 1) && tiles_pixel(g, cam, a, b)) by {}
        }
        y = y + 1;
    }
    match game.state() {
        PlayState::Playing => {},
        PlayState::Won => draw_status(framebuffer, true),
        PlayState::GameOver => draw_status(framebuffer, false),
    }
    if app.input_mode() == InputMode::Camera {
        draw_camera_mode_indicator(framebuffer);
    }
}

} // verus!
