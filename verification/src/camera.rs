use vstd::prelude::*;

use crate::direction::{delta_x, delta_y, Direction};
use crate::position::Position;

verus! {

pub const SCREEN_WIDTH: i16 = 128;

pub const SCREEN_HEIGHT: i16 = 64;

pub const TILE_SIZE: i16 = 12;

/// Pixels moved by one scroll: half a tile.
pub const SCROLL_STEP: i16 = 6;

/// Largest world extent in pixels: 255 tiles of 12 pixels.
pub const MAX_WORLD: i16 = 3060;

/// The pixel offset shown at the screen's edge along one axis: a world
/// narrower than the screen is centered; otherwise `value` is clamped so the
/// screen stays inside the world.
pub open spec fn clamp_axis_spec(value: int, world_size: int, screen_size: int) -> int {
    if world_size <= screen_size {
        -((screen_size - world_size) / 2)
    } else if value < 0 {
        0
    } else if value > world_size - screen_size {
        world_size - screen_size
    } else {
        value
    }
}

/// The offset that centers tile `tile` on the screen, clamped.
pub open spec fn centered(tile: int, world_size: int, screen_size: int) -> int {
    clamp_axis_spec(tile * TILE_SIZE + TILE_SIZE / 2 - screen_size / 2, world_size, screen_size)
}

/// The mathematical content of a camera: the world pixel shown at the
/// screen's top-left corner, and the world's size in pixels.
pub struct CameraView {
    pub x: int,
    pub y: int,
    pub world_width: int,
    pub world_height: int,
}

impl CameraView {
    /// The world fits the machine types, and the camera shows a clamped view of it.
    pub open spec fn wf(self) -> bool {
        &&& 0 <= self.world_width <= MAX_WORLD
        &&& 0 <= self.world_height <= MAX_WORLD
        &&& -SCREEN_WIDTH / 2 <= self.x <= MAX_WORLD
        &&& -SCREEN_HEIGHT / 2 <= self.y <= MAX_WORLD
    }

    /// The camera centered on `p`, clamped to the world.
    pub open spec fn centered_on(self, p: Position) -> CameraView {
        CameraView {
            x: centered(p.x as int, self.world_width, SCREEN_WIDTH as int),
            y: centered(p.y as int, self.world_height, SCREEN_HEIGHT as int),
            ..self
        }
    }

    /// The camera moved half a tile in direction `d`, clamped to the world.
    pub open spec fn scrolled(self, d: Direction) -> CameraView {
        CameraView {
            x: clamp_axis_spec(self.x + delta_x(d) * SCROLL_STEP, self.world_width, SCREEN_WIDTH as int),
            y: clamp_axis_spec(self.y + delta_y(d) * SCROLL_STEP, self.world_height, SCREEN_HEIGHT as int),
            ..self
        }
    }
}

/// The camera of a grid of `grid_width` by `grid_height` tiles, centered on `p`.
pub open spec fn following_spec(p: Position, grid_width: u8, grid_height: u8) -> CameraView {
    CameraView {
        x: 0,
        y: 0,
        world_width: grid_width * TILE_SIZE,
        world_height: grid_height * TILE_SIZE,
    }.centered_on(p)
}

/// Which part of the world is on screen.
#[derive(Clone, Copy, Debug, PartialEq, Eq, Structural)]
pub struct Camera {
    x: i16,
    y: i16,
    world_width: i16,
    world_height: i16,
}

impl View for Camera {
    type V = CameraView;

    closed spec fn view(&self) -> CameraView {
        CameraView {
            x: self.x as int,
            y: self.y as int,
            world_width: self.world_width as int,
            world_height: self.world_height as int,
        }
    }
}

/// Law: a clamped offset shows only the world (or centers a world narrower
/// than the screen), and clamping it again changes nothing.
pub proof fn lemma_clamp_in_view(value: int, world_size: int, screen_size: int)
    requires
        0 <= world_size,
        0 < screen_size,
    ensures
        world_size <= screen_size ==> clamp_axis_spec(value, world_size, screen_size) == -(
        (screen_size - world_size) / 2),
        world_size > screen_size ==> 0 <= clamp_axis_spec(value, world_size, screen_size)
            <= world_size - screen_size,
        clamp_axis_spec(clamp_axis_spec(value, world_size, screen_size), world_size, screen_size)
            == clamp_axis_spec(value, world_size, screen_size),
{
}

/// Law: when neither scroll is stopped by the world's edge, scrolling in
/// one direction and then in the opposite one returns to the same view.
pub proof fn lemma_scroll_back(c: CameraView, d: Direction)
    requires
        c.wf(),
        c.world_width > SCREEN_WIDTH,
        c.world_height > SCREEN_HEIGHT,
        0 <= c.x + delta_x(d) * SCROLL_STEP <= c.world_width - SCREEN_WIDTH,
        0 <= c.y + delta_y(d) * SCROLL_STEP <= c.world_height - SCREEN_HEIGHT,
        0 <= c.x <= c.world_width - SCREEN_WIDTH,
        0 <= c.y <= c.world_height - SCREEN_HEIGHT,
    ensures
        c.scrolled(d).scrolled(crate::direction::opposite_spec(d)) == c,
{
    crate::direction::lemma_opposite_involution(d);
}

/// A clamped offset stays inside the range every camera keeps.
proof fn lemma_clamp_bounds(value: int, world_size: int, screen_size: int)
    requires
        0 <= world_size <= MAX_WORLD,
        screen_size == SCREEN_WIDTH || screen_size == SCREEN_HEIGHT,
    ensures
        -screen_size / 2 <= clamp_axis_spec(value, world_size, screen_size) <= MAX_WORLD,
{
}

impl Camera {
    /// Every camera covers a world that fits the machine types and shows a
    /// clamped view of it.
    #[verifier::type_invariant]
    spec fn inv(self) -> bool {
        self@.wf()
    }

    /// A camera over a grid of `grid_width` by `grid_height` tiles, centered on `position`.
    pub fn following(position: Position, grid_width: u8, grid_height: u8) -> (c: Self)
        ensures
            c@ == following_spec(position, grid_width, grid_height),
            c@.wf(),
    {
        let mut camera = Camera {
            x: 0,
            y: 0,
            world_width: grid_width as i16 * TILE_SIZE,
            world_height: grid_height as i16 * TILE_SIZE,
        };
        camera.center_on(position);
        camera
    }

    /// Center the camera on `position`.
    pub fn follow(&mut self, position: Position)
        ensures
            final(self)@ == old(self)@.centered_on(position),
            final(self)@.wf(),
    {
        proof {
            use_type_invariant(&*self);
        }
        self.center_on(position);
    }

    /// Move the view half a tile in `direction`, staying inside the world.
    pub fn scroll(&mut self, direction: Direction)
        ensures
            final(self)@ == old(self)@.scrolled(direction),
            final(self)@.wf(),
    {
        let (dx, dy) = direction.delta();
        proof {
            use_type_invariant(&*self);
            lemma_clamp_bounds(self.x + dx * SCROLL_STEP, self.world_width as int, SCREEN_WIDTH as int);
            lemma_clamp_bounds(self.y + dy * SCROLL_STEP, self.world_height as int, SCREEN_HEIGHT as int);
        }
        self.x = clamp_axis(self.x + dx as i16 * SCROLL_STEP, self.world_width, SCREEN_WIDTH);
        self.y = clamp_axis(self.y + dy as i16 * SCROLL_STEP, self.world_height, SCREEN_HEIGHT);
    }

    fn center_on(&mut self, position: Position)
        ensures
            final(self)@ == old(self)@.centered_on(position),
            final(self)@.wf(),
    {
        let center_x = position.x as i16 * TILE_SIZE + TILE_SIZE / 2;
        let center_y = position.y as i16 * TILE_SIZE + TILE_SIZE / 2;
        proof {
            use_type_invariant(&*self);
            lemma_clamp_bounds(center_x - SCREEN_WIDTH / 2, self.world_width as int, SCREEN_WIDTH as int);
            lemma_clamp_bounds(center_y - SCREEN_HEIGHT / 2, self.world_height as int, SCREEN_HEIGHT as int);
        }
        self.x = clamp_axis(center_x - SCREEN_WIDTH / 2, self.world_width, SCREEN_WIDTH);
        self.y = clamp_axis(center_y - SCREEN_HEIGHT / 2, self.world_height, SCREEN_HEIGHT);
    }

    /// World pixel shown at the screen's left edge.
    pub fn x(&self) -> (x: i16)
        ensures
            x == self@.x,
    {
        self.x
    }

    /// World pixel shown at the screen's top edge.
    pub fn y(&self) -> (y: i16)
        ensures
            y == self@.y,
    {
        self.y
    }
}

/// Clamp an offset along one axis so the screen shows only the world, or
/// center a world narrower than the screen.
pub fn clamp_axis(value: i16, world_size: i16, screen_size: i16) -> (r: i16)
    requires
        world_size <= screen_size ==> screen_size - world_size <= i16::MAX,
        world_size > screen_size ==> world_size - screen_size <= i16::MAX,
    ensures
        r == clamp_axis_spec(value as int, world_size as int, screen_size as int),
{
    if world_size <= screen_size {
        -((screen_size - world_size) / 2)
    } else if value < 0 {
        0
    } else if value > world_size - screen_size {
        world_size - screen_size
    } else {
        value
    }
}

} // verus!
