use vstd::prelude::*;

use crate::direction::Direction;
use crate::grid::{lemma_index_injective, Cell, Grid, GridView, MAX_CELL_COUNT};
use crate::position::Position;

verus! {

pub const MAX_RATS: usize = 13;

pub const MAX_PORTALS: usize = 5;

pub const E: Cell = Cell::Empty;

pub const W: Cell = Cell::Wall;

pub const O: Cell = Cell::Portal;

pub const P: Cell = Cell::Player;

pub const R: Cell = Cell::Rat;

pub const S: Cell = Cell::Web;

/// The intro hub. Black-hole cells of the full game are walls here.
pub const INTRO_CELLS: [Cell; 99] = [
    W, W, W, W, E, W, R, E, E,
    W, E, E, E, E, W, E, E, E,
    W, E, E, W, O, W, E, E, E,
    W, E, E, W, E, W, E, E, E,
    W, E, E, W, E, W, E, E, E,
    W, E, E, W, E, W, E, E, E,
    W, E, E, W, E, W, W, W, W,
    E, E, E, W, O, O, O, E, E,
    E, W, W, W, E, W, W, W, E,
    E, W, R, W, O, W, R, W, E,
    E, W, W, W, P, W, E, E, E,
];

/// The first puzzle: one rat.
pub const RATS_CELLS: [Cell; 48] = [
    E, E, E, R, E, E,
    E, W, W, W, W, E,
    E, W, E, E, E, W,
    W, E, W, W, W, E,
    W, E, E, E, E, E,
    W, E, W, W, W, W,
    W, E, W, P, E, W,
    W, E, E, E, E, W,
];

/// Twelve rats lined up on both sides.
pub const MORE_RATS_CELLS: [Cell; 49] = [
    E, E, E, E, E, W, R,
    R, W, E, E, E, W, R,
    R, W, E, E, E, W, R,
    R, W, E, E, E, W, R,
    R, W, E, E, E, W, R,
    R, W, E, P, E, W, R,
    R, W, E, E, E, E, E,
];

/// A rat trapped in a maze above a room of rats.
pub const TRAPPED_RAT_CELLS: [Cell; 130] = [
    E, E, E, E, R, E, W, E, E, E,
    E, E, E, E, W, E, W, E, E, E,
    W, W, W, W, E, W, E, W, E, E,
    E, W, W, E, E, W, E, E, W, E,
    E, W, W, E, E, E, W, W, W, E,
    E, W, W, W, W, E, E, W, W, E,
    E, E, E, E, W, W, W, W, W, R,
    R, W, E, E, E, E, E, E, W, R,
    R, W, E, E, E, E, E, E, W, R,
    R, W, E, E, P, E, E, E, W, R,
    R, W, E, E, E, E, E, E, W, R,
    R, W, E, E, E, E, E, E, W, R,
    R, W, E, E, E, E, E, E, E, E,
];

/// A second maze for the trapped rat.
pub const TRAPPED_RAT_2_CELLS: [Cell; 130] = [
    E, E, W, E, R, E, W, W, E, E,
    E, W, E, W, W, E, W, E, W, E,
    E, W, W, E, E, W, W, W, E, E,
    E, W, W, E, E, W, W, E, W, E,
    E, W, E, E, W, W, E, W, W, E,
    E, W, W, W, W, E, E, E, W, E,
    E, E, E, E, W, W, W, W, W, R,
    R, W, E, E, E, E, E, E, W, R,
    R, W, E, E, E, E, E, E, W, R,
    R, W, E, E, P, E, E, E, W, R,
    R, W, E, E, E, E, E, E, W, R,
    R, W, E, E, E, E, E, E, W, R,
    R, W, E, W, W, E, E, E, E, E,
];

/// A field of webs.
pub const WEBS_CELLS: [Cell; 96] = [
    S, E, R, S, S, S, S, S, S, S, S, S,
    S, E, E, S, S, W, S, S, S, S, S, S,
    S, W, W, S, S, W, S, S, R, R, S, S,
    S, W, W, S, S, W, S, S, R, R, S, S,
    R, S, S, S, S, W, S, S, R, S, S, S,
    S, W, W, W, W, W, S, S, R, R, S, S,
    S, E, P, S, S, W, S, S, S, S, S, S,
    W, W, W, W, W, W, S, S, S, S, S, S,
];

/// Where a rat starts and which way it faces.
#[derive(Clone, Copy, Debug, PartialEq, Eq, Structural)]
pub struct RatSpawn {
    pub position: Position,
    pub direction: Direction,
}

impl RatSpawn {
    pub fn new(position: Position, direction: Direction) -> (s: Self)
        ensures
            s.position == position,
            s.direction == direction,
    {
        RatSpawn { position, direction }
    }
}

/// The levels of the game.
#[derive(Clone, Copy, Debug, PartialEq, Eq, Structural)]
pub enum LevelId {
    Intro,
    Rats,
    MoreRats,
    TrappedRat,
    TrappedRat2,
    Webs,
}

/// A portal cell and the level it leads to.
#[derive(Clone, Copy, Debug, PartialEq, Eq, Structural)]
pub struct Portal {
    pub position: Position,
    pub destination: LevelId,
}

impl Portal {
    pub fn new(position: Position, destination: LevelId) -> (p: Self)
        ensures
            p.position == position,
            p.destination == destination,
    {
        Portal { position, destination }
    }
}

/// The starting layout of a level.
pub struct Level {
    pub id: LevelId,
    pub grid: Grid,
    pub player_position: Position,
    pub player_direction: Direction,
    pub rats: Vec<RatSpawn>,
    pub portals: Vec<Portal>,
}

/// The mathematical content of a starting layout.
pub struct LevelView {
    pub id: LevelId,
    pub grid: GridView,
    pub player_position: Position,
    pub player_direction: Direction,
    pub rats: Seq<RatSpawn>,
    pub portals: Seq<Portal>,
}

impl View for Level {
    type V = LevelView;

    open spec fn view(&self) -> LevelView {
        LevelView {
            id: self.id,
            grid: self.grid@,
            player_position: self.player_position,
            player_direction: self.player_direction,
            rats: self.rats@,
            portals: self.portals@,
        }
    }
}

impl LevelView {
    /// A starting layout is usable: the grid is well formed, every actor stands
    /// inside it, and the grid shows the player and each rat where they start,
    /// with no two of them sharing a cell.
    pub open spec fn wf(self) -> bool {
        &&& self.grid.wf()
        &&& self.grid.in_bounds(self.player_position)
        &&& self.grid.cell_at(self.player_position) == Cell::Player
        &&& self.rats.len() <= MAX_RATS
        &&& self.portals.len() <= MAX_PORTALS
        &&& forall|i: int|
            0 <= i < self.rats.len() ==> self.grid.in_bounds(#[trigger] self.rats[i].position)
                && self.grid.cell_at(self.rats[i].position) == Cell::Rat && self.rats[i].position
                != self.player_position
        &&& forall|i: int, j: int|
            0 <= i < j < self.rats.len() ==> #[trigger] self.rats[i].position
                != #[trigger] self.rats[j].position
    }

    /// The grid shows exactly the actors: inside the grid, a cell is a Rat
    /// exactly where a rat starts, the Player exactly where the player starts,
    /// and a Portal exactly where a portal stands; every portal is inside.
    pub open spec fn exact(self) -> bool {
        &&& forall|p: Position| self.grid.in_bounds(p) ==> #[trigger] self.exact_at(p)
        &&& forall|i: int|
            0 <= i < self.portals.len() ==> self.grid.in_bounds(#[trigger] self.portals[i].position)
    }

    pub open spec fn exact_at(self, p: Position) -> bool {
        &&& self.grid.cell_at(p) == Cell::Rat <==> exists|i: int|
            0 <= i < self.rats.len() && #[trigger] self.rats[i].position == p
        &&& self.grid.cell_at(p) == Cell::Player <==> p == self.player_position
        &&& self.grid.cell_at(p) == Cell::Portal <==> exists|i: int|
            0 <= i < self.portals.len() && #[trigger] self.portals[i].position == p
    }

    spec fn rat_placed(self, i: int) -> bool {
        &&& self.grid.in_bounds(self.rats[i].position)
        &&& self.grid.cells[self.grid.index_of(self.rats[i].position)] == Cell::Rat
    }

    spec fn rats_ordered(self, k: int) -> bool {
        self.grid.index_of(self.rats[k].position) < self.grid.index_of(self.rats[k + 1].position)
    }

    spec fn portal_placed(self, i: int) -> bool {
        &&& self.grid.in_bounds(self.portals[i].position)
        &&& self.grid.cells[self.grid.index_of(self.portals[i].position)] == Cell::Portal
    }

    /// The first rat at or after `from` whose start has storage index `k`,
    /// or the number of rats where there is none.
    spec fn rat_search(self, k: int, from: int) -> int
        decreases self.rats.len() - from,
    {
        if from < 0 || from >= self.rats.len() {
            self.rats.len() as int
        } else if self.grid.index_of(self.rats[from].position) == k {
            from
        } else {
            self.rat_search(k, from + 1)
        }
    }

    /// The first portal at or after `from` with storage index `k`, or the
    /// number of portals where there is none.
    spec fn portal_search(self, k: int, from: int) -> int
        decreases self.portals.len() - from,
    {
        if from < 0 || from >= self.portals.len() {
            self.portals.len() as int
        } else if self.grid.index_of(self.portals[from].position) == k {
            from
        } else {
            self.portal_search(k, from + 1)
        }
    }

    /// What the storage cell at index `k` shows is accounted for by an actor.
    spec fn index_accounted(self, k: int) -> bool {
        &&& self.grid.cells[k] == Cell::Rat ==> self.rat_search(k, 0) < self.rats.len()
        &&& self.grid.cells[k] == Cell::Player ==> k == self.grid.index_of(self.player_position)
        &&& self.grid.cells[k] == Cell::Portal ==> self.portal_search(k, 0) < self.portals.len()
    }
}

/// `source` followed by empty cells up to the full capacity.
pub open spec fn padded(source: Seq<Cell>) -> Seq<Cell> {
    source + Seq::new((MAX_CELL_COUNT - source.len()) as nat, |i: int| Cell::Empty)
}

/// Width, height and player start of each level.
pub open spec fn level_shape(id: LevelId) -> (u8, u8, Position) {
    match id {
        LevelId::Intro => (9, 11, Position { x: 4, y: 10 }),
        LevelId::Rats => (6, 8, Position { x: 3, y: 6 }),
        LevelId::MoreRats => (7, 7, Position { x: 3, y: 5 }),
        LevelId::TrappedRat => (10, 13, Position { x: 4, y: 9 }),
        LevelId::TrappedRat2 => (10, 13, Position { x: 4, y: 9 }),
        LevelId::Webs => (12, 8, Position { x: 2, y: 6 }),
    }
}

/// The visible cells of each level, row by row.
pub open spec fn level_cells(id: LevelId) -> Seq<Cell> {
    match id {
        LevelId::Intro => INTRO_CELLS@,
        LevelId::Rats => RATS_CELLS@,
        LevelId::MoreRats => MORE_RATS_CELLS@,
        LevelId::TrappedRat => TRAPPED_RAT_CELLS@,
        LevelId::TrappedRat2 => TRAPPED_RAT_2_CELLS@,
        LevelId::Webs => WEBS_CELLS@,
    }
}

/// The rats of each level, in the order in which they move.
pub open spec fn level_spawns(id: LevelId) -> Seq<RatSpawn> {
    match id {
        LevelId::Intro => seq![
            RatSpawn { position: Position { x: 6, y: 0 }, direction: Direction::Southwest },
            RatSpawn { position: Position { x: 2, y: 9 }, direction: Direction::Southeast },
            RatSpawn { position: Position { x: 6, y: 9 }, direction: Direction::Southwest },
        ],
        LevelId::Rats => seq![
            RatSpawn { position: Position { x: 3, y: 0 }, direction: Direction::South },
        ],
        LevelId::MoreRats => seq![
            RatSpawn { position: Position { x: 6, y: 0 }, direction: Direction::Southwest },
            RatSpawn { position: Position { x: 0, y: 1 }, direction: Direction::Southeast },
            RatSpawn { position: Position { x: 6, y: 1 }, direction: Direction::Southwest },
            RatSpawn { position: Position { x: 0, y: 2 }, direction: Direction::Southeast },
            RatSpawn { position: Position { x: 6, y: 2 }, direction: Direction::Southwest },
            RatSpawn { position: Position { x: 0, y: 3 }, direction: Direction::Southeast },
            RatSpawn { position: Position { x: 6, y: 3 }, direction: Direction::Southwest },
            RatSpawn { position: Position { x: 0, y: 4 }, direction: Direction::Southeast },
            RatSpawn { position: Position { x: 6, y: 4 }, direction: Direction::Southwest },
            RatSpawn { position: Position { x: 0, y: 5 }, direction: Direction::East },
            RatSpawn { position: Position { x: 6, y: 5 }, direction: Direction::West },
            RatSpawn { position: Position { x: 0, y: 6 }, direction: Direction::Northeast },
        ],
        LevelId::TrappedRat | LevelId::TrappedRat2 => trapped_spawns(),
        LevelId::Webs => seq![
            RatSpawn { position: Position { x: 2, y: 0 }, direction: Direction::South },
            RatSpawn { position: Position { x: 8, y: 2 }, direction: Direction::Southwest },
            RatSpawn { position: Position { x: 9, y: 2 }, direction: Direction::Southwest },
            RatSpawn { position: Position { x: 8, y: 3 }, direction: Direction::Southwest },
            RatSpawn { position: Position { x: 9, y: 3 }, direction: Direction::Southwest },
            RatSpawn { position: Position { x: 0, y: 4 }, direction: Direction::Southeast },
            RatSpawn { position: Position { x: 8, y: 4 }, direction: Direction::Southwest },
            RatSpawn { position: Position { x: 8, y: 5 }, direction: Direction::Northwest },
            RatSpawn { position: Position { x: 9, y: 5 }, direction: Direction::Northwest },
        ],
    }
}

/// The rats shared by the two trapped-rat levels, in the order in which they
/// move: one in the maze, twelve around the room.
pub open spec fn trapped_spawns() -> Seq<RatSpawn> {
    seq![
        RatSpawn { position: Position { x: 4, y: 0 }, direction: Direction::South },
        RatSpawn { position: Position { x: 9, y: 6 }, direction: Direction::Southwest },
        RatSpawn { position: Position { x: 0, y: 7 }, direction: Direction::Southeast },
        RatSpawn { position: Position { x: 9, y: 7 }, direction: Direction::Southwest },
        RatSpawn { position: Position { x: 0, y: 8 }, direction: Direction::Southeast },
        RatSpawn { position: Position { x: 9, y: 8 }, direction: Direction::Southwest },
        RatSpawn { position: Position { x: 0, y: 9 }, direction: Direction::East },
        RatSpawn { position: Position { x: 9, y: 9 }, direction: Direction::West },
        RatSpawn { position: Position { x: 0, y: 10 }, direction: Direction::Northeast },
        RatSpawn { position: Position { x: 9, y: 10 }, direction: Direction::Northwest },
        RatSpawn { position: Position { x: 0, y: 11 }, direction: Direction::Northeast },
        RatSpawn { position: Position { x: 9, y: 11 }, direction: Direction::Northwest },
        RatSpawn { position: Position { x: 0, y: 12 }, direction: Direction::Northeast },
    ]
}

/// The layout of a trapped-rat level with the given id and visible cells:
/// a 10 by 13 grid, the player below the middle facing north, the shared
/// rats and no portals.
pub open spec fn trapped_rat_layout(id: LevelId, source: Seq<Cell>) -> LevelView {
    LevelView {
        id,
        grid: GridView { cells: padded(source), width: 10, height: 13 },
        player_position: Position { x: 4, y: 9 },
        player_direction: Direction::North,
        rats: trapped_spawns(),
        portals: Seq::empty(),
    }
}

/// The portals of each level; only the intro has any.
pub open spec fn level_portals(id: LevelId) -> Seq<Portal> {
    match id {
        LevelId::Intro => seq![
            Portal { position: Position { x: 4, y: 9 }, destination: LevelId::Rats },
            Portal { position: Position { x: 4, y: 7 }, destination: LevelId::MoreRats },
            Portal { position: Position { x: 5, y: 7 }, destination: LevelId::TrappedRat },
            Portal { position: Position { x: 6, y: 7 }, destination: LevelId::TrappedRat2 },
            Portal { position: Position { x: 4, y: 2 }, destination: LevelId::Webs },
        ],
        _ => Seq::empty(),
    }
}

/// The starting layout of level `id`.
pub open spec fn level_spec(id: LevelId) -> LevelView {
    let (w, h, start) = level_shape(id);
    LevelView {
        id,
        grid: GridView { cells: padded(level_cells(id)), width: w, height: h },
        player_position: start,
        player_direction: Direction::North,
        rats: level_spawns(id),
        portals: level_portals(id),
    }
}

/// The starting layout of level `id`.
pub fn load(id: LevelId) -> (l: Level)
    ensures
        l@ == level_spec(id),
        l@.wf(),
        l@.exact(),
{
    proof {
        lemma_level_wf(id);
    }
    match id {
        LevelId::Intro => intro(),
        LevelId::Rats => rats(),
        LevelId::MoreRats => more_rats(),
        LevelId::TrappedRat => trapped_rat(),
        LevelId::TrappedRat2 => trapped_rat_2(),
        LevelId::Webs => webs(),
    }
}

/// Every level's starting layout is usable, and its grid shows exactly its
/// actors: the Rat cells are where the rats start, the one Player cell is
/// where the player starts, and the Portal cells are the portals.
pub proof fn lemma_level_wf(id: LevelId)
    ensures
        level_spec(id).wf(),
        level_spec(id).exact(),
{
    match id {
        LevelId::Intro => lemma_intro_layout(),
        LevelId::Rats => lemma_rats_layout(),
        LevelId::MoreRats => lemma_more_rats_layout(),
        LevelId::TrappedRat => lemma_trapped_rat_layout(),
        LevelId::TrappedRat2 => lemma_trapped_rat_2_layout(),
        LevelId::Webs => lemma_webs_layout(),
    }
}

/// The layout of the intro is usable and exact, checked cell by cell.
#[verifier::rlimit(50)]
proof fn lemma_intro_layout()
    ensures
        level_spec(LevelId::Intro).wf(),
        level_spec(LevelId::Intro).exact(),
{
    let l = level_spec(LevelId::Intro);
    assert(l.grid.width == 9 && l.grid.height == 11);
    assert(l.grid.width * l.grid.height == 99);
    assert forall|p: Position| #[trigger] l.grid.index_of(p) == p.y * 9 + p.x by {}
    assert forall|i: int| 0 <= i < l.rats.len() implies #[trigger] l.rat_placed(i) by {
        lemma_small_cases(i);
    }
    assert forall|k: int| 0 <= k < l.rats.len() - 1 implies #[trigger] l.rats_ordered(k) by {
        lemma_small_cases(k);
    }
    assert forall|i: int| 0 <= i < l.portals.len() implies #[trigger] l.portal_placed(i) by {
        lemma_small_cases(i);
    }
    assert forall|p: Position| l.grid.in_bounds(p) implies #[trigger] l.index_accounted(
        l.grid.index_of(p),
    ) by {
        reveal_with_fuel(LevelView::rat_search, 14);
        reveal_with_fuel(LevelView::portal_search, 6);
        lemma_small_cases(p.x as int);
        lemma_small_cases(p.y as int);
    }
    lemma_layout(l);
}

/// The layout of Rats is usable and exact, checked cell by cell.
#[verifier::rlimit(50)]
proof fn lemma_rats_layout()
    ensures
        level_spec(LevelId::Rats).wf(),
        level_spec(LevelId::Rats).exact(),
{
    let l = level_spec(LevelId::Rats);
    assert(l.grid.width == 6 && l.grid.height == 8);
    assert(l.grid.width * l.grid.height == 48);
    assert forall|p: Position| #[trigger] l.grid.index_of(p) == p.y * 6 + p.x by {}
    assert forall|i: int| 0 <= i < l.rats.len() implies #[trigger] l.rat_placed(i) by {
        lemma_small_cases(i);
    }
    assert forall|k: int| 0 <= k < l.rats.len() - 1 implies #[trigger] l.rats_ordered(k) by {
        lemma_small_cases(k);
    }
    assert forall|i: int| 0 <= i < l.portals.len() implies #[trigger] l.portal_placed(i) by {
        lemma_small_cases(i);
    }
    assert forall|p: Position| l.grid.in_bounds(p) implies #[trigger] l.index_accounted(
        l.grid.index_of(p),
    ) by {
        reveal_with_fuel(LevelView::rat_search, 14);
        reveal_with_fuel(LevelView::portal_search, 6);
        lemma_small_cases(p.x as int);
        lemma_small_cases(p.y as int);
    }
    lemma_layout(l);
}

/// The layout of More Rats is usable and exact, checked cell by cell.
#[verifier::rlimit(50)]
proof fn lemma_more_rats_layout()
    ensures
        level_spec(LevelId::MoreRats).wf(),
        level_spec(LevelId::MoreRats).exact(),
{
    let l = level_spec(LevelId::MoreRats);
    assert(l.grid.width == 7 && l.grid.height == 7);
    assert(l.grid.width * l.grid.height == 49);
    assert forall|p: Position| #[trigger] l.grid.index_of(p) == p.y * 7 + p.x by {}
    assert forall|i: int| 0 <= i < l.rats.len() implies #[trigger] l.rat_placed(i) by {
        lemma_small_cases(i);
    }
    assert forall|k: int| 0 <= k < l.rats.len() - 1 implies #[trigger] l.rats_ordered(k) by {
        lemma_small_cases(k);
    }
    assert forall|i: int| 0 <= i < l.portals.len() implies #[trigger] l.portal_placed(i) by {
        lemma_small_cases(i);
    }
    assert forall|p: Position| l.grid.in_bounds(p) implies #[trigger] l.index_accounted(
        l.grid.index_of(p),
    ) by {
        reveal_with_fuel(LevelView::rat_search, 14);
        reveal_with_fuel(LevelView::portal_search, 6);
        lemma_small_cases(p.x as int);
        lemma_small_cases(p.y as int);
    }
    lemma_layout(l);
}

/// The layout of Trapped Rat is usable and exact, checked cell by cell.
#[verifier::rlimit(50)]
proof fn lemma_trapped_rat_layout()
    ensures
        level_spec(LevelId::TrappedRat).wf(),
        level_spec(LevelId::TrappedRat).exact(),
{
    let l = level_spec(LevelId::TrappedRat);
    assert(l.grid.width == 10 && l.grid.height == 13);
    assert(l.grid.width * l.grid.height == 130);
    assert forall|p: Position| #[trigger] l.grid.index_of(p) == p.y * 10 + p.x by {}
    assert forall|i: int| 0 <= i < l.rats.len() implies #[trigger] l.rat_placed(i) by {
        lemma_small_cases(i);
    }
    assert forall|k: int| 0 <= k < l.rats.len() - 1 implies #[trigger] l.rats_ordered(k) by {
        lemma_small_cases(k);
    }
    assert forall|i: int| 0 <= i < l.portals.len() implies #[trigger] l.portal_placed(i) by {
        lemma_small_cases(i);
    }
    assert forall|p: Position| l.grid.in_bounds(p) implies #[trigger] l.index_accounted(
        l.grid.index_of(p),
    ) by {
        reveal_with_fuel(LevelView::rat_search, 14);
        reveal_with_fuel(LevelView::portal_search, 6);
        lemma_small_cases(p.x as int);
        lemma_small_cases(p.y as int);
    }
    lemma_layout(l);
}

/// The layout of Trapped Rat 2 is usable and exact, checked cell by cell.
#[verifier::rlimit(50)]
proof fn lemma_trapped_rat_2_layout()
    ensures
        level_spec(LevelId::TrappedRat2).wf(),
        level_spec(LevelId::TrappedRat2).exact(),
{
    let l = level_spec(LevelId::TrappedRat2);
    assert(l.grid.width == 10 && l.grid.height == 13);
    assert(l.grid.width * l.grid.height == 130);
    assert forall|p: Position| #[trigger] l.grid.index_of(p) == p.y * 10 + p.x by {}
    assert forall|i: int| 0 <= i < l.rats.len() implies #[trigger] l.rat_placed(i) by {
        lemma_small_cases(i);
    }
    assert forall|k: int| 0 <= k < l.rats.len() - 1 implies #[trigger] l.rats_ordered(k) by {
        lemma_small_cases(k);
    }
    assert forall|i: int| 0 <= i < l.portals.len() implies #[trigger] l.portal_placed(i) by {
        lemma_small_cases(i);
    }
    assert forall|p: Position| l.grid.in_bounds(p) implies #[trigger] l.index_accounted(
        l.grid.index_of(p),
    ) by {
        reveal_with_fuel(LevelView::rat_search, 14);
        reveal_with_fuel(LevelView::portal_search, 6);
        lemma_small_cases(p.x as int);
        lemma_small_cases(p.y as int);
    }
    lemma_layout(l);
}

/// The layout of Webs is usable and exact, checked cell by cell.
#[verifier::rlimit(50)]
proof fn lemma_webs_layout()
    ensures
        level_spec(LevelId::Webs).wf(),
        level_spec(LevelId::Webs).exact(),
{
    let l = level_spec(LevelId::Webs);
    assert(l.grid.width == 12 && l.grid.height == 8);
    assert(l.grid.width * l.grid.height == 96);
    assert forall|p: Position| #[trigger] l.grid.index_of(p) == p.y * 12 + p.x by {}
    assert forall|i: int| 0 <= i < l.rats.len() implies #[trigger] l.rat_placed(i) by {
        lemma_small_cases(i);
    }
    assert forall|k: int| 0 <= k < l.rats.len() - 1 implies #[trigger] l.rats_ordered(k) by {
        lemma_small_cases(k);
    }
    assert forall|i: int| 0 <= i < l.portals.len() implies #[trigger] l.portal_placed(i) by {
        lemma_small_cases(i);
    }
    assert forall|p: Position| l.grid.in_bounds(p) implies #[trigger] l.index_accounted(
        l.grid.index_of(p),
    ) by {
        reveal_with_fuel(LevelView::rat_search, 14);
        reveal_with_fuel(LevelView::portal_search, 6);
        lemma_small_cases(p.x as int);
        lemma_small_cases(p.y as int);
    }
    lemma_layout(l);
}

/// A search that stops inside the list stops at a match.
proof fn lemma_rat_search(l: LevelView, k: int, from: int)
    requires
        0 <= from,
        l.rat_search(k, from) < l.rats.len(),
    ensures
        from <= l.rat_search(k, from),
        l.grid.index_of(l.rats[l.rat_search(k, from)].position) == k,
    decreases l.rats.len() - from,
{
    if from < l.rats.len() && l.grid.index_of(l.rats[from].position) != k {
        lemma_rat_search(l, k, from + 1);
    }
}

/// A search that stops inside the list stops at a match.
proof fn lemma_portal_search(l: LevelView, k: int, from: int)
    requires
        0 <= from,
        l.portal_search(k, from) < l.portals.len(),
    ensures
        from <= l.portal_search(k, from),
        l.grid.index_of(l.portals[l.portal_search(k, from)].position) == k,
    decreases l.portals.len() - from,
{
    if from < l.portals.len() && l.grid.index_of(l.portals[from].position) != k {
        lemma_portal_search(l, k, from + 1);
    }
}

/// A small natural number is one of the first thirteen, named one by one.
proof fn lemma_small_cases(n: int)
    requires
        0 <= n <= 12,
    ensures
        n == 0 || n == 1 || n == 2 || n == 3 || n == 4 || n == 5 || n == 6 || n == 7 || n == 8
            || n == 9 || n == 10 || n == 11 || n == 12,
{
}

/// From facts about storage indices to the position-level statements of
/// `wf` and `exact`.
proof fn lemma_layout(l: LevelView)
    requires
        l.grid.wf(),
        l.grid.in_bounds(l.player_position),
        l.grid.cells[l.grid.index_of(l.player_position)] == Cell::Player,
        l.rats.len() <= MAX_RATS,
        l.portals.len() <= MAX_PORTALS,
        forall|i: int| 0 <= i < l.rats.len() ==> #[trigger] l.rat_placed(i),
        forall|k: int| 0 <= k < l.rats.len() - 1 ==> #[trigger] l.rats_ordered(k),
        forall|i: int| 0 <= i < l.portals.len() ==> #[trigger] l.portal_placed(i),
        forall|p: Position|
            l.grid.in_bounds(p) ==> #[trigger] l.index_accounted(l.grid.index_of(p)),
    ensures
        l.wf(),
        l.exact(),
{
    let g = l.grid;
    lemma_index_injective(g, l.player_position, l.player_position);
    assert forall|i: int| 0 <= i < l.rats.len() implies g.in_bounds(#[trigger] l.rats[i].position)
        && g.cell_at(l.rats[i].position) == Cell::Rat && l.rats[i].position != l.player_position by {
        assert(l.rat_placed(i));
    }
    assert forall|k: int| 0 <= k < l.rats.len() - 1 implies #[trigger] g.index_of(
        l.rats[k].position,
    ) < g.index_of(l.rats[k + 1].position) by {
        assert(l.rats_ordered(k));
    }
    lemma_increasing_indices_distinct(g, l.rats);
    assert forall|i: int| 0 <= i < l.portals.len() implies g.in_bounds(#[trigger] l.portals[i].position) by {
        assert(l.portal_placed(i));
    }
    assert forall|p: Position| g.in_bounds(p) implies l.exact_at(p) by {
        lemma_index_injective(g, p, l.player_position);
        let k = g.index_of(p);
        assert(l.index_accounted(k));
        if g.cells[k] == Cell::Rat {
            lemma_rat_search(l, k, 0);
            let i = l.rat_search(k, 0);
            assert(l.rat_placed(i));
            lemma_index_injective(g, p, l.rats[i].position);
        }
        if g.cells[k] == Cell::Portal {
            lemma_portal_search(l, k, 0);
            let i = l.portal_search(k, 0);
            assert(l.portal_placed(i));
            lemma_index_injective(g, p, l.portals[i].position);
        }
        if exists|i: int| 0 <= i < l.rats.len() && #[trigger] l.rats[i].position == p {
            let i = choose|i: int| 0 <= i < l.rats.len() && #[trigger] l.rats[i].position == p;
            assert(l.rat_placed(i));
        }
        if exists|i: int| 0 <= i < l.portals.len() && #[trigger] l.portals[i].position == p {
            let i = choose|i: int| 0 <= i < l.portals.len() && #[trigger] l.portals[i].position == p;
            assert(l.portal_placed(i));
        }
    }
}


/// Positions whose row-major indices strictly increase along a sequence are
/// pairwise distinct.
proof fn lemma_increasing_indices_distinct(g: GridView, rats: Seq<RatSpawn>)
    requires
        forall|k: int|
            0 <= k < rats.len() - 1 ==> #[trigger] g.index_of(rats[k].position) < g.index_of(
                rats[k + 1].position,
            ),
    ensures
        forall|i: int, j: int|
            0 <= i < j < rats.len() ==> #[trigger] rats[i].position != #[trigger] rats[j].position,
    decreases rats.len(),
{
    if rats.len() > 1 {
        let front = rats.drop_last();
        assert forall|k: int| 0 <= k < front.len() - 1 implies #[trigger] g.index_of(
            front[k].position,
        ) < g.index_of(front[k + 1].position) by {
            assert(front[k] == rats[k] && front[k + 1] == rats[k + 1]);
        }
        lemma_increasing_indices_distinct(g, front);
        assert forall|i: int| 0 <= i < rats.len() - 1 implies g.index_of(#[trigger] rats[i].position)
            < g.index_of(rats[rats.len() - 1].position) by {
            lemma_increasing_chain(g, rats, i, rats.len() - 1);
        }
        assert forall|i: int, j: int| 0 <= i < j < rats.len() implies #[trigger] rats[i].position
            != #[trigger] rats[j].position by {
            if j < rats.len() - 1 {
                assert(front[i] == rats[i] && front[j] == rats[j]);
            } else {
                assert(g.index_of(rats[i].position) < g.index_of(rats[j].position));
            }
        }
    }
}

proof fn lemma_increasing_chain(g: GridView, rats: Seq<RatSpawn>, i: int, j: int)
    requires
        forall|k: int|
            0 <= k < rats.len() - 1 ==> #[trigger] g.index_of(rats[k].position) < g.index_of(
                rats[k + 1].position,
            ),
        0 <= i < j < rats.len(),
    ensures
        g.index_of(rats[i].position) < g.index_of(rats[j].position),
    decreases j - i,
{
    assert(g.index_of(rats[j - 1].position) < g.index_of(rats[j].position));
    if i < j - 1 {
        lemma_increasing_chain(g, rats, i, j - 1);
    }
}

/// Copy `source` to the front of a full-capacity cell buffer, filling the rest
/// with empty cells.
pub fn pad_cells<const N: usize>(source: [Cell; N]) -> (cells: Vec<Cell>)
    requires
        N <= MAX_CELL_COUNT,
    ensures
        cells@ == padded(source@),
{
    let mut cells: Vec<Cell> = Vec::new();
    let mut index: usize = 0;
    while index < MAX_CELL_COUNT
        invariant
            N <= MAX_CELL_COUNT,
            source@.len() == N,
            0 <= index <= MAX_CELL_COUNT,
            cells.len() == index,
            forall|i: int| 0 <= i < index && i < N ==> cells@[i] == source@[i],
            forall|i: int| N <= i < index ==> cells@[i] == Cell::Empty,
        decreases MAX_CELL_COUNT - index,
    {
        if index < N {
            cells.push(source[index]);
        } else {
            cells.push(Cell::Empty);
        }
        index = index + 1;
    }
    assert(cells@ =~= padded(source@));
    cells
}

fn intro() -> (l: Level)
    ensures
        l@ == level_spec(LevelId::Intro),
{
    Level {
        id: LevelId::Intro,
        grid: Grid::new(9, 11, pad_cells(INTRO_CELLS)),
        player_position: Position::new(4, 10),
        player_direction: Direction::North,
        rats: vec![
            RatSpawn { position: Position { x: 6, y: 0 }, direction: Direction::Southwest },
            RatSpawn { position: Position { x: 2, y: 9 }, direction: Direction::Southeast },
            RatSpawn { position: Position { x: 6, y: 9 }, direction: Direction::Southwest },
        ],
        portals: vec![
            Portal { position: Position { x: 4, y: 9 }, destination: LevelId::Rats },
            Portal { position: Position { x: 4, y: 7 }, destination: LevelId::MoreRats },
            Portal { position: Position { x: 5, y: 7 }, destination: LevelId::TrappedRat },
            Portal { position: Position { x: 6, y: 7 }, destination: LevelId::TrappedRat2 },
            Portal { position: Position { x: 4, y: 2 }, destination: LevelId::Webs },
        ],
    }
}

fn rats() -> (l: Level)
    ensures
        l@ == level_spec(LevelId::Rats),
{
    Level {
        id: LevelId::Rats,
        grid: Grid::new(6, 8, pad_cells(RATS_CELLS)),
        player_position: Position::new(3, 6),
        player_direction: Direction::North,
        rats: {
            let mut v: Vec<RatSpawn> = Vec::new();
            v.push(RatSpawn { position: Position { x: 3, y: 0 }, direction: Direction::South });
            v
        },
        portals: Vec::new(),
    }
}

fn more_rats() -> (l: Level)
    ensures
        l@ == level_spec(LevelId::MoreRats),
{
    Level {
        id: LevelId::MoreRats,
        grid: Grid::new(7, 7, pad_cells(MORE_RATS_CELLS)),
        player_position: Position::new(3, 5),
        player_direction: Direction::North,
        rats: vec![
            RatSpawn { position: Position { x: 6, y: 0 }, direction: Direction::Southwest },
            RatSpawn { position: Position { x: 0, y: 1 }, direction: Direction::Southeast },
            RatSpawn { position: Position { x: 6, y: 1 }, direction: Direction::Southwest },
            RatSpawn { position: Position { x: 0, y: 2 }, direction: Direction::Southeast },
            RatSpawn { position: Position { x: 6, y: 2 }, direction: Direction::Southwest },
            RatSpawn { position: Position { x: 0, y: 3 }, direction: Direction::Southeast },
            RatSpawn { position: Position { x: 6, y: 3 }, direction: Direction::Southwest },
            RatSpawn { position: Position { x: 0, y: 4 }, direction: Direction::Southeast },
            RatSpawn { position: Position { x: 6, y: 4 }, direction: Direction::Southwest },
            RatSpawn { position: Position { x: 0, y: 5 }, direction: Direction::East },
            RatSpawn { position: Position { x: 6, y: 5 }, direction: Direction::West },
            RatSpawn { position: Position { x: 0, y: 6 }, direction: Direction::Northeast },
        ],
        portals: Vec::new(),
    }
}

fn trapped_rat() -> (l: Level)
    ensures
        l@ == level_spec(LevelId::TrappedRat),
{
    let l = trapped_rat_level(LevelId::TrappedRat, TRAPPED_RAT_CELLS);
    assert(l@.grid =~= level_spec(LevelId::TrappedRat).grid);
    l
}

fn trapped_rat_2() -> (l: Level)
    ensures
        l@ == level_spec(LevelId::TrappedRat2),
{
    let l = trapped_rat_level(LevelId::TrappedRat2, TRAPPED_RAT_2_CELLS);
    assert(l@.grid =~= level_spec(LevelId::TrappedRat2).grid);
    l
}

/// The two trapped-rat levels share their size, start and rats; only the
/// walls differ.
fn trapped_rat_level(id: LevelId, source: [Cell; 130]) -> (l: Level)
    ensures
        l@ == trapped_rat_layout(id, source@),
{
    Level {
        id,
        grid: Grid::new(10, 13, pad_cells(source)),
        player_position: Position::new(4, 9),
        player_direction: Direction::North,
        rats: vec![
            RatSpawn { position: Position { x: 4, y: 0 }, direction: Direction::South },
            RatSpawn { position: Position { x: 9, y: 6 }, direction: Direction::Southwest },
            RatSpawn { position: Position { x: 0, y: 7 }, direction: Direction::Southeast },
            RatSpawn { position: Position { x: 9, y: 7 }, direction: Direction::Southwest },
            RatSpawn { position: Position { x: 0, y: 8 }, direction: Direction::Southeast },
            RatSpawn { position: Position { x: 9, y: 8 }, direction: Direction::Southwest },
            RatSpawn { position: Position { x: 0, y: 9 }, direction: Direction::East },
            RatSpawn { position: Position { x: 9, y: 9 }, direction: Direction::West },
            RatSpawn { position: Position { x: 0, y: 10 }, direction: Direction::Northeast },
            RatSpawn { position: Position { x: 9, y: 10 }, direction: Direction::Northwest },
            RatSpawn { position: Position { x: 0, y: 11 }, direction: Direction::Northeast },
            RatSpawn { position: Position { x: 9, y: 11 }, direction: Direction::Northwest },
            RatSpawn { position: Position { x: 0, y: 12 }, direction: Direction::Northeast },
        ],
        portals: Vec::new(),
    }
}

fn webs() -> (l: Level)
    ensures
        l@ == level_spec(LevelId::Webs),
{
    Level {
        id: LevelId::Webs,
        grid: Grid::new(12, 8, pad_cells(WEBS_CELLS)),
        player_position: Position::new(2, 6),
        player_direction: Direction::North,
        rats: vec![
            RatSpawn { position: Position { x: 2, y: 0 }, direction: Direction::South },
            RatSpawn { position: Position { x: 8, y: 2 }, direction: Direction::Southwest },
            RatSpawn { position: Position { x: 9, y: 2 }, direction: Direction::Southwest },
            RatSpawn { position: Position { x: 8, y: 3 }, direction: Direction::Southwest },
            RatSpawn { position: Position { x: 9, y: 3 }, direction: Direction::Southwest },
            RatSpawn { position: Position { x: 0, y: 4 }, direction: Direction::Southeast },
            RatSpawn { position: Position { x: 8, y: 4 }, direction: Direction::Southwest },
            RatSpawn { position: Position { x: 8, y: 5 }, direction: Direction::Northwest },
            RatSpawn { position: Position { x: 9, y: 5 }, direction: Direction::Northwest },
        ],
        portals: Vec::new(),
    }
}

} // verus!
