use vstd::prelude::*;

use crate::direction::{
    is_diagonal_spec, movement_cost_spec, opposite_spec, rank_of, toward_spec,
    x_only_spec, y_only_spec, Direction,
};
use crate::grid::{Cell, Grid, GridView};
use crate::level::{self, level_spec, LevelId, Portal, MAX_RATS};
use crate::position::{distance_squared_spec, offset_spec, Position};

verus! {

/// Whether the puzzle is still being played.
#[derive(Clone, Copy, Debug, PartialEq, Eq, Structural)]
pub enum PlayState {
    Playing,
    Won,
    GameOver,
}

/// A rat of the level: where it is (`None` once the player has killed it)
/// and which way it faces.
#[derive(Clone, Copy, Debug)]
pub struct Rat {
    pub position: Option<Position>,
    pub direction: Direction,
}

/// The mathematical state of a game.
pub struct GameView {
    pub level_id: LevelId,
    pub grid: GridView,
    pub player_position: Position,
    pub player_direction: Direction,
    pub rats: Seq<Rat>,
    pub portals: Seq<Portal>,
    pub state: PlayState,
}

/// A candidate move of a rat with the key it is ranked by: closer to the
/// player first, then cheaper, then made while the player moved, then lower
/// tie-break rank. `direction == None` is staying in place.
pub struct Pick {
    pub direction: Option<Direction>,
    pub score: int,
    pub cost: int,
    pub player_still: bool,
    pub rank: int,
}

/// Strict lexicographic order on the keys of two picks (`false < true`).
pub open spec fn pick_less(a: Pick, b: Pick) -> bool {
    ||| a.score < b.score
    ||| a.score == b.score && a.cost < b.cost
    ||| a.score == b.score && a.cost == b.cost && !a.player_still && b.player_still
    ||| a.score == b.score && a.cost == b.cost && a.player_still == b.player_still && a.rank
        < b.rank
}

impl GameView {
    /// Every actor stands inside a well-formed grid.
    pub open spec fn wf(self) -> bool {
        &&& self.grid.wf()
        &&& self.grid.in_bounds(self.player_position)
        &&& self.rats.len() <= MAX_RATS
        &&& forall|i: int|
            0 <= i < self.rats.len() && (#[trigger] self.rats[i]).position is Some
                ==> self.grid.in_bounds(self.rats[i].position->0)
    }

    /// The grid shows the player and every live rat where they stand, and no
    /// two of them share a cell.
    pub open spec fn board_consistent(self) -> bool {
        &&& self.grid.cell_at(self.player_position) == Cell::Player
        &&& forall|i: int|
            0 <= i < self.rats.len() && (#[trigger] self.rats[i]).position is Some ==> (
            self.grid.cell_at(self.rats[i].position->0) == Cell::Rat && self.rats[i].position->0
                != self.player_position)
        &&& forall|i: int, j: int|
            0 <= i < j < self.rats.len() && (#[trigger] self.rats[i]).position is Some
                ==> (#[trigger] self.rats[j]).position != self.rats[i].position
    }

    /// Some live rat stands on the player's cell.
    pub open spec fn rat_on_player(self) -> bool {
        exists|i: int|
            0 <= i < self.rats.len() && (#[trigger] self.rats[i]).position == Some(
                self.player_position,
            )
    }

    /// The state agrees with the board: while playing, the board is
    /// consistent; a won game has no rat left; a lost game has a rat on the
    /// player.
    pub open spec fn consistent(self) -> bool {
        match self.state {
            PlayState::Playing => self.board_consistent(),
            PlayState::Won => !self.any_rat_alive(),
            PlayState::GameOver => self.rat_on_player(),
        }
    }

    pub open spec fn any_rat_alive(self) -> bool {
        exists|i: int| 0 <= i < self.rats.len() && (#[trigger] self.rats[i]).position is Some
    }

    /// The level reached through the portal under the player, if any.
    pub open spec fn portal_here(self) -> Option<LevelId> {
        portal_at(self.portals, self.player_position)
    }

    pub open spec fn on_portal(self) -> bool {
        self.portal_here() is Some
    }

    /// The player steps (or only turns) in direction `d`.
    pub open spec fn after_player_move(self, d: Direction) -> GameView {
        let turned = GameView { player_direction: d, ..self };
        let dest = offset_spec(self.player_position, d);
        let target = self.grid.cell_at(dest);
        if target == Cell::Wall || (self.level_id == LevelId::Intro && target == Cell::Rat) {
            turned
        } else {
            let left_behind = if self.on_portal() {
                Cell::Portal
            } else {
                Cell::Empty
            };
            GameView {
                grid: self.grid.with_cell(self.player_position, left_behind).with_cell(
                    dest,
                    Cell::Player,
                ),
                player_position: dest,
                rats: kill_rats_at(self.rats, dest),
                ..turned
            }
        }
    }

    /// Whether a rat at `rat` may step in direction `d`: the target is neither
    /// a wall nor another rat, and it does not attack the player from the front,
    /// where the sword is.
    pub open spec fn rat_may_enter(self, rat: Position, d: Direction) -> bool {
        let dest = offset_spec(rat, d);
        let target = self.grid.cell_at(dest);
        &&& target != Cell::Wall
        &&& target != Cell::Rat
        &&& !(dest == self.player_position && d == opposite_spec(self.player_direction))
    }

    /// The ranking key of the rat at `rat` stepping in direction `d`.
    pub open spec fn pick_for(self, rat: Position, d: Direction, player_moved: bool) -> Pick {
        Pick {
            direction: Some(d),
            score: distance_squared_spec(offset_spec(rat, d), self.player_position),
            cost: movement_cost_spec(d),
            player_still: !player_moved,
            rank: rank_of(d),
        }
    }

    /// The ranking key of staying in place.
    pub open spec fn stay_pick(self, rat: Position) -> Pick {
        Pick {
            direction: None,
            score: distance_squared_spec(rat, self.player_position),
            cost: 0,
            player_still: true,
            rank: 255,
        }
    }

    /// `best`, or the candidate if it is allowed and ranks strictly better.
    pub open spec fn consider(
        self,
        rat: Position,
        candidate: Option<Direction>,
        player_moved: bool,
        best: Pick,
    ) -> Pick {
        match candidate {
            Some(d) => if self.rat_may_enter(rat, d) && pick_less(
                self.pick_for(rat, d, player_moved),
                best,
            ) {
                self.pick_for(rat, d, player_moved)
            } else {
                best
            },
            None => best,
        }
    }

    /// The best move of a rat at `rat` facing `face`: the direct step toward
    /// the player and, for a diagonal facing, its horizontal and vertical
    /// parts, each against staying put.
    pub open spec fn best_pick(
        self,
        rat: Position,
        face: Direction,
        player_moved: bool,
    ) -> Pick {
        let second = if is_diagonal_spec(face) {
            x_only_spec(face)
        } else {
            None
        };
        let third = if is_diagonal_spec(face) {
            y_only_spec(face)
        } else {
            None
        };
        self.consider(
            rat,
            third,
            player_moved,
            self.consider(
                rat,
                second,
                player_moved,
                self.consider(rat, Some(face), player_moved, self.stay_pick(rat)),
            ),
        )
    }

    /// The live rat `i` takes its turn.
    pub open spec fn rat_step(self, i: int, player_moved: bool) -> GameView {
        let rat = self.rats[i].position->0;
        match toward_spec(rat, self.player_position) {
            None => GameView { state: PlayState::GameOver, ..self },
            Some(face) => match self.best_pick(rat, face, player_moved).direction {
                None => GameView {
                    rats: self.rats.update(i, Rat { position: Some(rat), direction: face }),
                    ..self
                },
                Some(d) => {
                    let dest = offset_spec(rat, d);
                    GameView {
                        grid: self.grid.with_cell(rat, Cell::Empty).with_cell(dest, Cell::Rat),
                        rats: self.rats.update(i, Rat { position: Some(dest), direction: d }),
                        state: if dest == self.player_position {
                            PlayState::GameOver
                        } else {
                            self.state
                        },
                        ..self
                    }
                },
            },
        }
    }

    /// Rat `i` takes its turn if it is alive and the game is still on.
    pub open spec fn rat_turn(self, i: int, player_moved: bool) -> GameView {
        if self.state == PlayState::Playing && 0 <= i < self.rats.len() && self.rats[i].position is Some {
            self.rat_step(i, player_moved)
        } else {
            self
        }
    }

    /// Rats `i .. n` take their turns in order.
    pub open spec fn rats_from(self, i: int, n: int, player_moved: bool) -> GameView
        decreases n - i,
    {
        if i >= n {
            self
        } else {
            self.rat_turn(i, player_moved).rats_from(i + 1, n, player_moved)
        }
    }

    /// One turn: the player moves (or stalls), then, outside the intro, the
    /// puzzle is won if no rat is left, and otherwise every rat moves.
    pub open spec fn act(self, movement: Option<Direction>) -> GameView {
        if self.state != PlayState::Playing {
            self
        } else {
            let moved = match movement {
                Some(d) => self.after_player_move(d),
                None => self,
            };
            if moved.level_id == LevelId::Intro {
                moved
            } else if !moved.any_rat_alive() {
                GameView { state: PlayState::Won, ..moved }
            } else {
                moved.rats_from(0, moved.rats.len() as int, movement is Some)
            }
        }
    }
}

/// The destination of the first portal at `p`.
pub open spec fn portal_at(portals: Seq<Portal>, p: Position) -> Option<LevelId>
    decreases portals.len(),
{
    if portals.len() == 0 {
        None
    } else if portals[0].position == p {
        Some(portals[0].destination)
    } else {
        portal_at(portals.drop_first(), p)
    }
}

/// Every rat standing at `p` is killed.
pub open spec fn kill_rats_at(rats: Seq<Rat>, p: Position) -> Seq<Rat> {
    Seq::new(
        rats.len(),
        |i: int|
            if rats[i].position == Some(p) {
                Rat { position: None, direction: rats[i].direction }
            } else {
                rats[i]
            },
    )
}

/// Position of the first rat still alive.
pub open spec fn first_live(rats: Seq<Rat>) -> Option<Position>
    decreases rats.len(),
{
    if rats.len() == 0 {
        None
    } else if rats[0].position is Some {
        rats[0].position
    } else {
        first_live(rats.drop_first())
    }
}

/// Facing of the first live rat at `p`; south when there is none.
pub open spec fn direction_at(rats: Seq<Rat>, p: Position) -> Direction
    decreases rats.len(),
{
    if rats.len() == 0 {
        Direction::South
    } else if rats[0].position == Some(p) {
        rats[0].direction
    } else {
        direction_at(rats.drop_first(), p)
    }
}

/// A puzzle set up from explicit contents (it restarts as the Rats level).
pub open spec fn scenario_start(
    grid: GridView,
    player_position: Position,
    player_direction: Direction,
    rat_positions: Seq<Position>,
    rat_directions: Seq<Direction>,
    rat_count: nat,
) -> GameView {
    GameView {
        level_id: LevelId::Rats,
        grid,
        player_position,
        player_direction,
        rats: Seq::new(
            rat_count,
            |i: int| Rat { position: Some(rat_positions[i]), direction: rat_directions[i] },
        ),
        portals: Seq::empty(),
        state: PlayState::Playing,
    }
}

/// The game as it starts on level `id`.
pub open spec fn start_of(id: LevelId) -> GameView {
    let l = level_spec(id);
    GameView {
        level_id: id,
        grid: l.grid,
        player_position: l.player_position,
        player_direction: l.player_direction,
        rats: Seq::new(
            l.rats.len(),
            |i: int| Rat { position: Some(l.rats[i].position), direction: l.rats[i].direction },
        ),
        portals: l.portals,
        state: PlayState::Playing,
    }
}

/// Positions inside a well-formed grid are small enough for every step and
/// distance computation to fit in its machine type.
pub proof fn lemma_in_bounds_small(g: GridView, p: Position, q: Position)
    requires
        g.wf(),
        g.in_bounds(p),
        g.in_bounds(q),
    ensures
        0 <= p.x < 127,
        0 <= p.y < 127,
        distance_squared_spec(p, q) <= i16::MAX,
{
    let dx = q.x - p.x;
    let dy = q.y - p.y;
    assert(dx * dx <= 126 * 126) by (nonlinear_arith)
        requires
            -126 <= dx <= 126,
    ;
    assert(dy * dy <= 126 * 126) by (nonlinear_arith)
        requires
            -126 <= dy <= 126,
    ;
}

/// A game of the infestation puzzle: the player with a sword against rats.
pub struct Game {
    level_id: LevelId,
    grid: Grid,
    player_position: Position,
    player_direction: Direction,
    rats: Vec<Rat>,
    portals: Vec<Portal>,
    state: PlayState,
}

impl Game {
    /// Every game is well formed, and a game of the intro is consistent: the
    /// intro is only ever entered from its own starting layout.
    #[verifier::type_invariant]
    pub(crate) open spec fn inv(self) -> bool {
        &&& self@.wf()
        &&& self@.level_id == LevelId::Intro ==> self@.consistent()
    }
}

/// The running best move while a rat weighs its options.
struct Candidate {
    direction: Option<Direction>,
    score: i16,
    cost: i16,
    player_still: bool,
    rank: u8,
}

impl Candidate {
    spec fn pick(&self) -> Pick {
        Pick {
            direction: self.direction,
            score: self.score as int,
            cost: self.cost as int,
            player_still: self.player_still,
            rank: self.rank as int,
        }
    }

    fn less_than(&self, other: &Candidate) -> (r: bool)
        ensures
            r == pick_less(self.pick(), other.pick()),
    {
        if self.score != other.score {
            self.score < other.score
        } else if self.cost != other.cost {
            self.cost < other.cost
        } else if self.player_still != other.player_still {
            !self.player_still
        } else {
            self.rank < other.rank
        }
    }
}

impl View for Game {
    type V = GameView;

    closed spec fn view(&self) -> GameView {
        GameView {
            level_id: self.level_id,
            grid: self.grid@,
            player_position: self.player_position,
            player_direction: self.player_direction,
            rats: self.rats@,
            portals: self.portals@,
            state: self.state,
        }
    }
}

/// An independent copy of a vector of plain values.
fn copy_vec<T: Copy>(v: &Vec<T>) -> (r: Vec<T>)
    ensures
        r@ == v@,
{
    let mut r: Vec<T> = Vec::new();
    let mut i: usize = 0;
    while i < v.len()
        invariant
            0 <= i <= v.len(),
            r@ == v@.subrange(0, i as int),
        decreases v.len() - i,
    {
        r.push(v[i]);
        assert(r@ =~= v@.subrange(0, i + 1));
        i = i + 1;
    }
    assert(r@ =~= v@);
    r
}

/// Kill every rat standing at `p`.
fn kill_rats(rats: &mut Vec<Rat>, p: Position)
    ensures
        final(rats)@ == kill_rats_at(old(rats)@, p),
{
    let ghost before = rats@;
    let mut i: usize = 0;
    while i < rats.len()
        invariant
            rats.len() == before.len(),
            0 <= i <= rats.len(),
            forall|j: int| 0 <= j < i ==> rats@[j] == kill_rats_at(before, p)[j],
            forall|j: int| i <= j < rats.len() ==> rats@[j] == before[j],
        decreases rats.len() - i,
    {
        let r = rats[i];
        match r.position {
            Some(q) => {
                if q == p {
                    rats.set(i, Rat { position: None, direction: r.direction });
                }
            },
            None => {},
        }
        i = i + 1;
    }
    assert(rats@ =~= kill_rats_at(before, p));
}

/// Whether any rat is still alive.
fn any_alive(rats: &Vec<Rat>) -> (r: bool)
    ensures
        r == exists|i: int| 0 <= i < rats@.len() && (#[trigger] rats@[i]).position is Some,
{
    let mut i: usize = 0;
    while i < rats.len()
        invariant
            0 <= i <= rats.len(),
            forall|j: int| 0 <= j < i ==> (#[trigger] rats@[j]).position is None,
        decreases rats.len() - i,
    {
        if rats[i].position.is_some() {
            return true;
        }
        i = i + 1;
    }
    false
}

/// The destination of the first portal at `p`.
fn find_portal(portals: &Vec<Portal>, p: Position) -> (r: Option<LevelId>)
    ensures
        r == portal_at(portals@, p),
{
    let mut i: usize = 0;
    assert(portals@.skip(0) =~= portals@);
    while i < portals.len()
        invariant
            0 <= i <= portals.len(),
            portal_at(portals@, p) == portal_at(portals@.skip(i as int), p),
        decreases portals.len() - i,
    {
        let portal = portals[i];
        assert(portals@.skip(i as int)[0] == portal);
        if portal.position == p {
            return Some(portal.destination);
        }
        assert(portals@.skip(i as int).drop_first() =~= portals@.skip(i + 1));
        i = i + 1;
    }
    assert(portals@.skip(i as int) =~= Seq::<Portal>::empty());
    None
}

/// The rats of a level as they start.
fn spawn_rats(spawns: &Vec<level::RatSpawn>) -> (rats: Vec<Rat>)
    ensures
        rats@ == Seq::new(
            spawns@.len(),
            |i: int| Rat { position: Some(spawns@[i].position), direction: spawns@[i].direction },
        ),
{
    let mut rats: Vec<Rat> = Vec::new();
    let mut i: usize = 0;
    while i < spawns.len()
        invariant
            0 <= i <= spawns.len(),
            rats.len() == i,
            forall|j: int|
                0 <= j < i ==> #[trigger] rats@[j] == (Rat {
                    position: Some(spawns@[j].position),
                    direction: spawns@[j].direction,
                }),
        decreases spawns.len() - i,
    {
        let spawn = spawns[i];
        rats.push(Rat { position: Some(spawn.position), direction: spawn.direction });
        i = i + 1;
    }
    assert(rats@ =~= Seq::new(
        spawns@.len(),
        |i: int| Rat { position: Some(spawns@[i].position), direction: spawns@[i].direction },
    ));
    rats
}

/// Every level starts well formed and consistent.
pub proof fn lemma_start_wf(id: LevelId)
    ensures
        start_of(id).wf(),
        start_of(id).consistent(),
        start_of(id).state == PlayState::Playing,
{
    level::lemma_level_wf(id);
    let g = start_of(id);
    let l = level_spec(id);
    assert forall|i: int| 0 <= i < g.rats.len() && (#[trigger] g.rats[i]).position is Some implies g.grid.in_bounds(
        g.rats[i].position->0,
    ) && g.grid.cell_at(g.rats[i].position->0) == Cell::Rat && g.rats[i].position->0
        != g.player_position by {
        assert(g.rats[i].position->0 == l.rats[i].position);
    }
    assert forall|i: int, j: int|
        0 <= i < j < g.rats.len() && (#[trigger] g.rats[i]).position is Some implies (
    #[trigger] g.rats[j]).position != g.rats[i].position by {
        assert(l.rats[i].position != l.rats[j].position);
    }
}

impl Game {
    /// Start level `level_id`.
    pub fn new(level_id: LevelId) -> (g: Self)
        ensures
            g@ == start_of(level_id),
            g@.wf(),
            g@.consistent(),
    {
        proof {
            lemma_start_wf(level_id);
        }
        let level = level::load(level_id);
        let rats = spawn_rats(&level.rats);
        let game = Game {
            level_id: level.id,
            grid: level.grid,
            player_position: level.player_position,
            player_direction: level.player_direction,
            rats,
            portals: level.portals,
            state: PlayState::Playing,
        };
        assert(game@.rats =~= start_of(level_id).rats);
        game
    }

    /// Start the current level again.
    pub fn restart(&mut self)
        ensures
            final(self)@ == start_of(old(self)@.level_id),
            final(self)@.wf(),
            final(self)@.consistent(),
    {
        *self = Self::new(self.level_id);
    }

    /// Switch to level `level_id`, starting it afresh.
    pub fn load(&mut self, level_id: LevelId)
        ensures
            final(self)@ == start_of(level_id),
            final(self)@.wf(),
            final(self)@.consistent(),
    {
        *self = Self::new(level_id);
    }

    /// A puzzle with the given contents, as the scenario fixtures describe
    /// them: the first `rat_count` entries of `rat_positions` and
    /// `rat_directions` are the rats, in turn order. It counts as the Rats
    /// level, which is what a restart loads.
    pub fn from_scenario(
        width: u8,
        height: u8,
        cells: Vec<Cell>,
        player_position: Position,
        player_direction: Direction,
        rat_positions: Vec<Position>,
        rat_directions: Vec<Direction>,
        rat_count: u8,
    ) -> (g: Self)
        requires
            width * height <= crate::grid::MAX_CELL_COUNT,
            width <= i8::MAX,
            height <= i8::MAX,
            cells.len() == crate::grid::MAX_CELL_COUNT,
            (GridView { cells: cells@, width, height }).in_bounds(player_position),
            rat_count <= MAX_RATS,
            rat_count <= rat_positions.len(),
            rat_count <= rat_directions.len(),
            forall|i: int|
                0 <= i < rat_count ==> (GridView { cells: cells@, width, height }).in_bounds(
                    #[trigger] rat_positions@[i],
                ),
        ensures
            g@ == scenario_start(
                GridView { cells: cells@, width, height },
                player_position,
                player_direction,
                rat_positions@,
                rat_directions@,
                rat_count as nat,
            ),
            g@.wf(),
    {
        let ghost cells_view = cells@;
        let mut rats: Vec<Rat> = Vec::new();
        let mut i: usize = 0;
        while i < rat_count as usize
            invariant
                rat_count <= rat_positions.len(),
                rat_count <= rat_directions.len(),
                0 <= i <= rat_count,
                rats.len() == i,
                forall|j: int|
                    0 <= j < i ==> #[trigger] rats@[j] == (Rat {
                        position: Some(rat_positions@[j]),
                        direction: rat_directions@[j],
                    }),
            decreases rat_count - i,
        {
            rats.push(Rat { position: Some(rat_positions[i]), direction: rat_directions[i] });
            i = i + 1;
        }
        let game = Game {
            level_id: LevelId::Rats,
            grid: Grid::new(width, height, cells),
            player_position,
            player_direction,
            rats,
            portals: Vec::new(),
            state: PlayState::Playing,
        };
        assert(game@.rats =~= Seq::new(
            rat_count as nat,
            |i: int| Rat { position: Some(rat_positions@[i]), direction: rat_directions@[i] },
        ));
        game
    }

    /// An independent copy of the game.
    pub fn snapshot(&self) -> (g: Game)
        ensures
            g@ == self@,
    {
        proof {
            use_type_invariant(self);
        }
        Game {
            level_id: self.level_id,
            grid: self.grid.copy(),
            player_position: self.player_position,
            player_direction: self.player_direction,
            rats: copy_vec(&self.rats),
            portals: copy_vec(&self.portals),
            state: self.state,
        }
    }

    /// The cell at `position`; outside the level everything is a wall.
    pub fn cell(&self, position: Position) -> (c: Cell)
        ensures
            c == self@.grid.cell_at(position),
    {
        proof {
            use_type_invariant(self);
        }
        self.grid.cell(position)
    }

    pub fn player_direction(&self) -> (d: Direction)
        ensures
            d == self@.player_direction,
    {
        self.player_direction
    }

    pub fn player_position(&self) -> (p: Position)
        ensures
            p == self@.player_position,
    {
        self.player_position
    }

    /// Position of the first rat that is still alive, if any.
    pub fn rat_position(&self) -> (p: Option<Position>)
        ensures
            p == first_live(self@.rats),
    {
        let mut i: usize = 0;
        assert(self.rats@.skip(0) =~= self.rats@);
        while i < self.rats.len()
            invariant
                0 <= i <= self.rats.len(),
                first_live(self.rats@) == first_live(self.rats@.skip(i as int)),
            decreases self.rats.len() - i,
        {
            assert(self.rats@.skip(i as int)[0] == self.rats@[i as int]);
            if self.rats[i].position.is_some() {
                return self.rats[i].position;
            }
            assert(self.rats@.skip(i as int).drop_first() =~= self.rats@.skip(i + 1));
            i = i + 1;
        }
        assert(self.rats@.skip(i as int) =~= Seq::<Rat>::empty());
        None
    }

    /// Facing of the first live rat at `position` (south if there is none).
    pub fn rat_direction_at(&self, position: Position) -> (d: Direction)
        ensures
            d == direction_at(self@.rats, position),
    {
        let mut i: usize = 0;
        assert(self.rats@.skip(0) =~= self.rats@);
        while i < self.rats.len()
            invariant
                0 <= i <= self.rats.len(),
                direction_at(self.rats@, position) == direction_at(
                    self.rats@.skip(i as int),
                    position,
                ),
            decreases self.rats.len() - i,
        {
            let rat = self.rats[i];
            assert(self.rats@.skip(i as int)[0] == rat);
            match rat.position {
                Some(p) => {
                    if p == position {
                        return rat.direction;
                    }
                },
                None => {},
            }
            assert(self.rats@.skip(i as int).drop_first() =~= self.rats@.skip(i + 1));
            i = i + 1;
        }
        assert(self.rats@.skip(i as int) =~= Seq::<Rat>::empty());
        Direction::South
    }

    /// Number of rats the level holds, dead or alive.
    pub fn rat_count(&self) -> (n: usize)
        ensures
            n == self@.rats.len(),
    {
        self.rats.len()
    }

    /// Rat `index` in turn order.
    pub fn rat(&self, index: usize) -> (r: Rat)
        requires
            index < self@.rats.len(),
        ensures
            r == self@.rats[index as int],
    {
        self.rats[index]
    }

    pub fn state(&self) -> (s: PlayState)
        ensures
            s == self@.state,
    {
        self.state
    }

    pub fn level_id(&self) -> (id: LevelId)
        ensures
            id == self@.level_id,
    {
        self.level_id
    }

    pub fn width(&self) -> (w: u8)
        ensures
            w == self@.grid.width,
    {
        self.grid.width()
    }

    pub fn height(&self) -> (h: u8)
        ensures
            h == self@.grid.height,
    {
        self.grid.height()
    }

    /// Whether the player stands on a portal.
    pub fn is_on_portal(&self) -> (b: bool)
        ensures
            b == self@.on_portal(),
    {
        find_portal(&self.portals, self.player_position).is_some()
    }

    /// The level behind the portal the player stands on, if any.
    pub fn portal_destination(&self) -> (d: Option<LevelId>)
        ensures
            d == self@.portal_here(),
    {
        find_portal(&self.portals, self.player_position)
    }

    /// How many visible cells hold `cell`.
    pub fn count(&self, cell: Cell) -> (n: usize)
        ensures
            n == self@.grid.count_of(cell),
    {
        proof {
            use_type_invariant(self);
        }
        self.grid.count(cell)
    }

    /// Take one turn: move the player in `movement` (or stall on `None`), then
    /// let the rats answer.
    pub fn act(&mut self, movement: Option<Direction>)
        ensures
            final(self)@ == old(self)@.act(movement),
            final(self)@.wf(),
            old(self)@.consistent() ==> final(self)@.consistent(),
            old(self)@.level_id == LevelId::Intro && old(self)@.state == PlayState::Playing
                ==> final(self)@.rats == old(self)@.rats && final(self)@.state
                == PlayState::Playing,
    {
        proof {
            use_type_invariant(&*self);
            if old(self)@.consistent() {
                lemma_act_consistent(old(self)@, movement);
            }
            if old(self)@.level_id == LevelId::Intro && old(self)@.state == PlayState::Playing {
                lemma_intro_rats_stay(old(self)@, movement);
            }
        }
        if self.state != PlayState::Playing {
            return;
        }
        let player_moved = movement.is_some();
        match movement {
            Some(direction) => self.move_player(direction),
            None => {},
        }
        if self.level_id == LevelId::Intro {
            return;
        }
        if !any_alive(&self.rats) {
            self.state = PlayState::Won;
            return;
        }
        let ghost moved = self@;
        let n = self.rats.len();
        let mut i: usize = 0;
        while i < n
            invariant
                self@.wf(),
                self@.level_id != LevelId::Intro,
                n == self.rats.len(),
                n == moved.rats.len(),
                0 <= i <= n,
                self@.rats_from(i as int, n as int, player_moved) == moved.rats_from(
                    0,
                    n as int,
                    player_moved,
                ),
            decreases n - i,
        {
            if self.state == PlayState::Playing && self.rats[i].position.is_some() {
                self.move_rat(i, player_moved);
            }
            i = i + 1;
        }
    }

    /// The player turns to `direction` and steps there unless a wall (or, in
    /// the intro, a rat) is in the way. Stepping onto a rat kills it.
    fn move_player(&mut self, direction: Direction)
        requires
            old(self)@.wf(),
            old(self)@.state == PlayState::Playing,
        ensures
            final(self)@ == old(self)@.after_player_move(direction),
            final(self)@.wf(),
    {
        proof {
            use_type_invariant(&*self);
            lemma_in_bounds_small(self.grid@, self.player_position, self.player_position);
        }
        self.player_direction = direction;
        let destination = self.player_position.offset(direction);
        let destination_cell = self.grid.cell(destination);
        if destination_cell == Cell::Wall || (self.level_id == LevelId::Intro && destination_cell
            == Cell::Rat) {
            return;
        }
        let old_cell = if find_portal(&self.portals, self.player_position).is_some() {
            Cell::Portal
        } else {
            Cell::Empty
        };
        // The new board is built aside and installed whole, so that the
        // game's invariant holds at every step.
        let mut grid = self.grid.copy();
        grid.set_cell(self.player_position, old_cell);
        let mut rats = copy_vec(&self.rats);
        kill_rats(&mut rats, destination);
        grid.set_cell(destination, Cell::Player);
        let ghost g = old(self)@;
        proof {
            let h = g.after_player_move(direction);
            assert forall|i: int|
                0 <= i < h.rats.len() && (#[trigger] h.rats[i]).position is Some implies h.grid.in_bounds(
                h.rats[i].position->0,
            ) by {
                assert(h.rats[i].position == g.rats[i].position);
            }
            if g.level_id == LevelId::Intro {
                lemma_player_move_consistent(g, direction);
            }
        }
        *self = Game {
            level_id: self.level_id,
            grid,
            player_position: destination,
            player_direction: direction,
            rats,
            portals: copy_vec(&self.portals),
            state: self.state,
        };
    }

    /// Rat `index` answers the player's move: it steps toward the player if
    /// that brings it strictly closer, preferring cheaper and lower-ranked
    /// steps, and otherwise turns to face the player.
    fn move_rat(&mut self, index: usize, player_moved: bool)
        requires
            old(self)@.wf(),
            index < old(self)@.rats.len(),
            old(self)@.state == PlayState::Playing,
            old(self)@.level_id != LevelId::Intro,
            old(self)@.rats[index as int].position is Some,
        ensures
            final(self)@ == old(self)@.rat_step(index as int, player_moved),
            final(self)@.wf(),
    {
        proof {
            use_type_invariant(&*self);
        }
        let rat = match self.rats[index].position {
            Some(p) => p,
            None => {
                return;
            },
        };
        proof {
            lemma_in_bounds_small(self.grid@, rat, self.player_position);
        }
        let face = match Direction::toward(rat, self.player_position) {
            Some(d) => d,
            None => {
                self.state = PlayState::GameOver;
                return;
            },
        };
        let stay = Candidate {
            direction: None,
            score: rat.distance_squared(self.player_position),
            cost: 0,
            player_still: true,
            rank: 255,
        };
        let first = self.consider(rat, Some(face), player_moved, stay);
        let (second, third) = if face.is_diagonal() {
            (face.x_only(), face.y_only())
        } else {
            (None, None)
        };
        let after_second = self.consider(rat, second, player_moved, first);
        let best = self.consider(rat, third, player_moved, after_second);
        proof {
            lemma_best_pick_allowed(self@, rat, face, player_moved);
        }
        match best.direction {
            None => {
                self.set_rat(index, Rat { position: Some(rat), direction: face });
            },
            Some(direction) => {
                let destination = rat.offset(direction);
                assert(self@.grid.in_bounds(destination));
                self.grid.set_cell(rat, Cell::Empty);
                self.set_rat(index, Rat { position: Some(destination), direction });
                if destination == self.player_position {
                    self.state = PlayState::GameOver;
                }
                self.grid.set_cell(destination, Cell::Rat);
            },
        }
    }

    /// Replace rat `index`, which stays inside the grid.
    fn set_rat(&mut self, index: usize, rat: Rat)
        requires
            old(self)@.level_id != LevelId::Intro,
            index < old(self)@.rats.len(),
            rat.position matches Some(p) ==> old(self)@.grid.in_bounds(p),
        ensures
            final(self)@ == (GameView { rats: old(self)@.rats.update(index as int, rat), ..old(self)@ }),
    {
        proof {
            use_type_invariant(&*self);
        }
        let mut rats = copy_vec(&self.rats);
        rats.set(index, rat);
        self.rats = rats;
    }

    /// `best`, or the step in `candidate` if the rat may take it and it ranks
    /// strictly better.
    fn consider(
        &self,
        rat: Position,
        candidate: Option<Direction>,
        player_moved: bool,
        best: Candidate,
    ) -> (r: Candidate)
        requires
            self@.wf(),
            self@.grid.in_bounds(rat),
        ensures
            r.pick() == self@.consider(rat, candidate, player_moved, best.pick()),
    {
        match candidate {
            None => best,
            Some(direction) => {
                proof {
                    lemma_in_bounds_small(self.grid@, rat, self.player_position);
                }
                let destination = rat.offset(direction);
                let target = self.grid.cell(destination);
                if target == Cell::Wall || target == Cell::Rat {
                    return best;
                }
                if destination == self.player_position && direction
                    == self.player_direction.opposite() {
                    return best;
                }
                proof {
                    lemma_in_bounds_small(self.grid@, destination, self.player_position);
                }
                let option = Candidate {
                    direction: Some(direction),
                    score: destination.distance_squared(self.player_position),
                    cost: direction.movement_cost(),
                    player_still: !player_moved,
                    rank: direction.tie_break_rank(),
                };
                if option.less_than(&best) {
                    option
                } else {
                    best
                }
            },
        }
    }
}

/// The move a rat settles on is always one it may take, and its ranking key
/// is that of the step.
pub proof fn lemma_best_pick_allowed(g: GameView, rat: Position, face: Direction, player_moved: bool)
    ensures
        g.best_pick(rat, face, player_moved).direction matches Some(d) ==> g.rat_may_enter(rat, d)
            && g.best_pick(rat, face, player_moved) == g.pick_for(rat, d, player_moved),
{
}

/// `toward_spec` fails exactly when the two positions coincide.
pub proof fn lemma_toward_none(from: Position, to: Position)
    ensures
        toward_spec(from, to) is None <==> from == to,
{
}

/// The player's move keeps every actor inside the grid and, while playing,
/// keeps the board consistent.
pub proof fn lemma_player_move_consistent(g: GameView, d: Direction)
    requires
        g.wf(),
        g.state == PlayState::Playing,
        g.board_consistent(),
    ensures
        g.after_player_move(d).wf(),
        g.after_player_move(d).board_consistent(),
        g.after_player_move(d).state == PlayState::Playing,
{
    let dest = offset_spec(g.player_position, d);
    let target = g.grid.cell_at(dest);
    if !(target == Cell::Wall || (g.level_id == LevelId::Intro && target == Cell::Rat)) {
        let h = g.after_player_move(d);
        let left_behind = if g.on_portal() {
            Cell::Portal
        } else {
            Cell::Empty
        };
        let g1 = g.grid.with_cell(g.player_position, left_behind);
        crate::grid::lemma_read_after_write(g.grid, g.player_position, dest, left_behind);
        crate::grid::lemma_read_after_write(g1, dest, dest, Cell::Player);
        assert(h.grid.cell_at(h.player_position) == Cell::Player);
        assert forall|i: int| 0 <= i < h.rats.len() && (#[trigger] h.rats[i]).position is Some implies h.grid.in_bounds(
            h.rats[i].position->0,
        ) && h.grid.cell_at(h.rats[i].position->0) == Cell::Rat && h.rats[i].position->0
            != h.player_position by {
            let q = h.rats[i].position->0;
            assert(g.rats[i].position == Some(q));
            assert(q != dest);
            crate::grid::lemma_read_after_write(g.grid, g.player_position, q, left_behind);
            crate::grid::lemma_read_after_write(g1, dest, q, Cell::Player);
        }
        assert forall|i: int, j: int|
            0 <= i < j < h.rats.len() && (#[trigger] h.rats[i]).position is Some implies (
        #[trigger] h.rats[j]).position != h.rats[i].position by {
            assert(g.rats[i].position == h.rats[i].position);
            assert(h.rats[j].position is Some ==> g.rats[j].position == h.rats[j].position);
        }
    }
}

/// A rat's turn keeps every actor inside the grid and keeps the state
/// consistent with the board.
pub proof fn lemma_rat_turn_consistent(g: GameView, i: int, player_moved: bool)
    requires
        g.wf(),
        g.consistent(),
    ensures
        g.rat_turn(i, player_moved).wf(),
        g.rat_turn(i, player_moved).consistent(),
        g.rat_turn(i, player_moved).state != PlayState::Won || g.state == PlayState::Won,
        g.rat_turn(i, player_moved).rats.len() == g.rats.len(),
{
    if g.state == PlayState::Playing && 0 <= i < g.rats.len() && g.rats[i].position is Some {
        let r = g.rats[i].position->0;
        lemma_toward_none(r, g.player_position);
        let face = toward_spec(r, g.player_position)->0;
        let best = g.best_pick(r, face, player_moved);
        lemma_best_pick_allowed(g, r, face, player_moved);
        let h = g.rat_step(i, player_moved);
        match best.direction {
            None => {
                assert forall|k: int| 0 <= k < h.rats.len() && (#[trigger] h.rats[k]).position is Some implies h.grid.in_bounds(
                    h.rats[k].position->0,
                ) && h.grid.cell_at(h.rats[k].position->0) == Cell::Rat && h.rats[k].position->0
                    != h.player_position by {
                    assert(h.rats[k].position == g.rats[k].position);
                }
                assert forall|k: int, j: int|
                    0 <= k < j < h.rats.len() && (#[trigger] h.rats[k]).position is Some implies (
                #[trigger] h.rats[j]).position != h.rats[k].position by {
                    assert(h.rats[k].position == g.rats[k].position);
                    assert(h.rats[j].position == g.rats[j].position);
                }
            },
            Some(d) => {
                let dest = offset_spec(r, d);
                let g1 = g.grid.with_cell(r, Cell::Empty);
                crate::grid::lemma_read_after_write(g.grid, r, dest, Cell::Empty);
                crate::grid::lemma_read_after_write(g1, dest, dest, Cell::Rat);
                crate::grid::lemma_read_after_write(g.grid, r, g.player_position, Cell::Empty);
                crate::grid::lemma_read_after_write(g1, dest, g.player_position, Cell::Rat);
                assert(h.rats[i].position == Some(dest));
                if dest == g.player_position {
                    assert(h.rat_on_player());
                } else {
                    assert forall|k: int|
                        0 <= k < h.rats.len() && (#[trigger] h.rats[k]).position is Some implies h.grid.in_bounds(
                        h.rats[k].position->0,
                    ) && h.grid.cell_at(h.rats[k].position->0) == Cell::Rat
                        && h.rats[k].position->0 != h.player_position by {
                        if k != i {
                            let q = h.rats[k].position->0;
                            assert(g.rats[k].position == Some(q));
                            if k < i {
                                assert(g.rats[i].position != g.rats[k].position);
                            } else {
                                assert(g.rats[k].position != g.rats[i].position);
                            }
                            crate::grid::lemma_read_after_write(g.grid, r, q, Cell::Empty);
                            crate::grid::lemma_read_after_write(g1, dest, q, Cell::Rat);
                        }
                    }
                    assert forall|k: int, j: int|
                        0 <= k < j < h.rats.len() && (#[trigger] h.rats[k]).position
                            is Some implies (#[trigger] h.rats[j]).position != h.rats[k].position by {
                        if k != i && j != i {
                            assert(h.rats[k].position == g.rats[k].position);
                            assert(h.rats[j].position == g.rats[j].position);
                        } else if k == i {
                            if h.rats[j].position is Some {
                                assert(g.grid.cell_at(h.rats[j].position->0) == Cell::Rat);
                            }
                        } else {
                            assert(g.grid.cell_at(h.rats[k].position->0) == Cell::Rat);
                        }
                    }
                }
            },
        }
    }
}

/// All remaining rats taking their turns keeps every actor inside the grid
/// and keeps the state consistent with the board.
pub proof fn lemma_rats_from_consistent(g: GameView, i: int, n: int, player_moved: bool)
    requires
        g.wf(),
        g.consistent(),
    ensures
        g.rats_from(i, n, player_moved).wf(),
        g.rats_from(i, n, player_moved).consistent(),
        g.rats_from(i, n, player_moved).state != PlayState::Won || g.state == PlayState::Won,
    decreases n - i,
{
    if i < n {
        lemma_rat_turn_consistent(g, i, player_moved);
        lemma_rats_from_consistent(g.rat_turn(i, player_moved), i + 1, n, player_moved);
    }
}

/// Law: a turn keeps every actor inside the grid, and keeps the play state
/// consistent with the board: while the puzzle is played the grid shows the
/// player and every live rat where they stand, a won puzzle has no rat left,
/// and a lost one has a rat on the player.
pub proof fn lemma_act_consistent(g: GameView, movement: Option<Direction>)
    requires
        g.wf(),
        g.consistent(),
    ensures
        g.act(movement).wf(),
        g.act(movement).consistent(),
{
    if g.state == PlayState::Playing {
        let moved = match movement {
            Some(d) => g.after_player_move(d),
            None => g,
        };
        match movement {
            Some(d) => lemma_player_move_consistent(g, d),
            None => {},
        }
        if moved.level_id != LevelId::Intro && moved.any_rat_alive() {
            lemma_rats_from_consistent(moved, 0, moved.rats.len() as int, movement is Some);
        }
    }
}

/// Law: once a puzzle is won or lost, turns change nothing.
pub proof fn lemma_finished_game_is_frozen(g: GameView, movement: Option<Direction>)
    requires
        g.state != PlayState::Playing,
    ensures
        g.act(movement) == g,
{
}

/// Law: in the intro the rats never move or die, and the game never ends.
pub proof fn lemma_intro_rats_stay(g: GameView, movement: Option<Direction>)
    requires
        g.wf(),
        g.consistent(),
        g.level_id == LevelId::Intro,
        g.state == PlayState::Playing,
    ensures
        g.act(movement).rats == g.rats,
        g.act(movement).state == PlayState::Playing,
{
    match movement {
        Some(d) => {
            let dest = offset_spec(g.player_position, d);
            let target = g.grid.cell_at(dest);
            if !(target == Cell::Wall || target == Cell::Rat) {
                assert forall|i: int| 0 <= i < g.rats.len() implies (#[trigger] g.rats[i]).position
                    != Some(dest) by {
                    if g.rats[i].position is Some {
                        assert(g.grid.cell_at(g.rats[i].position->0) == Cell::Rat);
                    }
                }
                assert(kill_rats_at(g.rats, dest) =~= g.rats);
            }
        },
        None => {},
    }
}

/// Law: the player never walks into a wall: after a turn the player either
/// stands where they stood or one step away in the chosen direction, on a
/// cell that was not a wall; and they always face the chosen direction.
pub proof fn lemma_player_step(g: GameView, d: Direction)
    requires
        g.wf(),
        g.state == PlayState::Playing,
    ensures
        g.act(Some(d)).player_direction == d,
        g.act(Some(d)).player_position == g.player_position || (g.act(Some(d)).player_position
            == offset_spec(g.player_position, d) && g.grid.cell_at(offset_spec(g.player_position, d))
            != Cell::Wall),
        g.grid.cell_at(offset_spec(g.player_position, d)) == Cell::Wall ==> g.act(
            Some(d),
        ).player_position == g.player_position,
{
    let moved = g.after_player_move(d);
    if moved.level_id != LevelId::Intro && moved.any_rat_alive() {
        lemma_rats_from_keeps_player(moved, 0, moved.rats.len() as int, true);
    }
}

/// Law: outside the intro, a player who is still playing ends a turn facing
/// the chosen direction, and on the cell that way whenever it is not a wall
/// (a rat there dies).
pub proof fn lemma_player_enters_open_cell(g: GameView, d: Direction)
    requires
        g.state == PlayState::Playing,
        g.level_id != LevelId::Intro,
    ensures
        g.grid.cell_at(offset_spec(g.player_position, d)) != Cell::Wall ==> g.act(
            Some(d),
        ).player_position == offset_spec(g.player_position, d),
        g.act(Some(d)).player_direction == d,
{
    let moved = g.after_player_move(d);
    if moved.any_rat_alive() {
        lemma_rats_from_keeps_player(moved, 0, moved.rats.len() as int, true);
    }
}

/// Rats' turns never move the player.
proof fn lemma_rats_from_keeps_player(g: GameView, i: int, n: int, player_moved: bool)
    ensures
        g.rats_from(i, n, player_moved).player_position == g.player_position,
        g.rats_from(i, n, player_moved).player_direction == g.player_direction,
        g.rats_from(i, n, player_moved).rats.len() == g.rats.len(),
    decreases n - i,
{
    if i < n {
        lemma_rats_from_keeps_player(g.rat_turn(i, player_moved), i + 1, n, player_moved);
    }
}

/// Rats' turns never bring a dead rat back.
proof fn lemma_rats_from_dead_stay_dead(g: GameView, i: int, n: int, player_moved: bool)
    ensures
        g.rats_from(i, n, player_moved).rats.len() == g.rats.len(),
        forall|k: int|
            0 <= k < g.rats.len() && (#[trigger] g.rats[k]).position is None
                ==> g.rats_from(i, n, player_moved).rats[k].position is None,
    decreases n - i,
{
    if i < n {
        let h = g.rat_turn(i, player_moved);
        lemma_rats_from_dead_stay_dead(h, i + 1, n, player_moved);
        assert forall|k: int|
            0 <= k < g.rats.len() && (#[trigger] g.rats[k]).position is None implies h.rats[k].position
            is None by {}
    }
}

/// Law: a killed rat stays dead, and the number of rats never changes.
pub proof fn lemma_dead_rats_stay_dead(g: GameView, movement: Option<Direction>)
    ensures
        g.act(movement).rats.len() == g.rats.len(),
        forall|k: int|
            0 <= k < g.rats.len() && (#[trigger] g.rats[k]).position is None ==> g.act(
                movement,
            ).rats[k].position is None,
{
    if g.state == PlayState::Playing {
        let moved = match movement {
            Some(d) => g.after_player_move(d),
            None => g,
        };
        assert forall|k: int|
            0 <= k < g.rats.len() && (#[trigger] g.rats[k]).position is None implies moved.rats[k].position
            is None by {}
        if moved.level_id != LevelId::Intro && moved.any_rat_alive() {
            lemma_rats_from_dead_stay_dead(moved, 0, moved.rats.len() as int, movement is Some);
        }
    }
}

/// Each step a rat weighs is either staying put or an allowed step that is
/// strictly closer to the player than staying.
proof fn lemma_consider_closer(
    g: GameView,
    rat: Position,
    candidate: Option<Direction>,
    player_moved: bool,
    best: Pick,
)
    requires
        best == g.stay_pick(rat) || (best.direction matches Some(d) && best == g.pick_for(
            rat,
            d,
            player_moved,
        ) && g.rat_may_enter(rat, d) && best.score < g.stay_pick(rat).score),
    ensures
        ({
            let r = g.consider(rat, candidate, player_moved, best);
            r == g.stay_pick(rat) || (r.direction matches Some(d) && r == g.pick_for(
                rat,
                d,
                player_moved,
            ) && g.rat_may_enter(rat, d) && r.score < g.stay_pick(rat).score)
        }),
{
}

/// The ranking key of where rat `r` ended a turn that it began at `rat`:
/// that of staying, or that of the step it took.
pub open spec fn settled_key(g: GameView, rat: Position, r: Rat, player_moved: bool) -> Pick {
    if r.position == Some(rat) {
        g.stay_pick(rat)
    } else {
        g.pick_for(rat, r.direction, player_moved)
    }
}

/// The steps a rat facing `face` weighs: the facing itself and, for a
/// diagonal facing, its horizontal and vertical parts.
pub open spec fn is_candidate(face: Direction, d: Direction) -> bool {
    ||| d == face
    ||| is_diagonal_spec(face) && x_only_spec(face) == Some(d)
    ||| is_diagonal_spec(face) && y_only_spec(face) == Some(d)
}

/// `res`, the result of weighing `candidate` against `best`, ranks no worse
/// than `best`, nor than the candidate when the rat may take it.
proof fn lemma_consider_no_worse(
    g: GameView,
    rat: Position,
    candidate: Option<Direction>,
    player_moved: bool,
    best: Pick,
)
    ensures
        !pick_less(best, g.consider(rat, candidate, player_moved, best)),
        match candidate {
            Some(d) => g.rat_may_enter(rat, d) ==> !pick_less(
                g.pick_for(rat, d, player_moved),
                g.consider(rat, candidate, player_moved, best),
            ),
            None => true,
        },
        g.consider(rat, candidate, player_moved, best) == best || match candidate {
            Some(d) => g.rat_may_enter(rat, d) && g.consider(rat, candidate, player_moved, best)
                == g.pick_for(rat, d, player_moved),
            None => false,
        },
{
}

/// Law: a live rat that faces the player ends its turn where it ranks best.
/// It either turns in place to face the player or takes one step among the
/// facing and, for a diagonal facing, its horizontal and vertical parts,
/// onto a cell it may enter; and no step it may take among those, nor
/// staying, ranks strictly better (closer to the player first, then cheaper,
/// then while the player moved, then by tie-break rank). In particular it
/// stays only when no such step brings it strictly closer.
pub proof fn lemma_rat_takes_best_step(g: GameView, i: int, player_moved: bool)
    requires
        g.wf(),
        0 <= i < g.rats.len(),
        g.rats[i].position is Some,
        toward_spec(g.rats[i].position->0, g.player_position) is Some,
    ensures
        ({
            let rat = g.rats[i].position->0;
            let face = toward_spec(rat, g.player_position)->0;
            let r = g.rat_step(i, player_moved).rats[i];
            let key = settled_key(g, rat, r, player_moved);
            &&& (r.position == Some(rat) && r.direction == face) || (is_candidate(face, r.direction)
                && g.rat_may_enter(rat, r.direction) && r.position == Some(
                offset_spec(rat, r.direction),
            ) && offset_spec(rat, r.direction) != rat)
            &&& !pick_less(g.stay_pick(rat), key)
            &&& forall|d: Direction|
                is_candidate(face, d) && g.rat_may_enter(rat, d) ==> !pick_less(
                    #[trigger] g.pick_for(rat, d, player_moved),
                    key,
                )
            &&& r.position == Some(rat) ==> forall|d: Direction|
                is_candidate(face, d) && g.rat_may_enter(rat, d) ==> distance_squared_spec(
                    #[trigger] offset_spec(rat, d),
                    g.player_position,
                ) >= distance_squared_spec(rat, g.player_position)
        }),
{
    let rat = g.rats[i].position->0;
    let face = toward_spec(rat, g.player_position)->0;
    lemma_in_bounds_small(g.grid, rat, rat);
    let second = if is_diagonal_spec(face) {
        x_only_spec(face)
    } else {
        None
    };
    let third = if is_diagonal_spec(face) {
        y_only_spec(face)
    } else {
        None
    };
    let stay = g.stay_pick(rat);
    let b1 = g.consider(rat, Some(face), player_moved, stay);
    let b2 = g.consider(rat, second, player_moved, b1);
    let b3 = g.consider(rat, third, player_moved, b2);
    lemma_consider_no_worse(g, rat, Some(face), player_moved, stay);
    lemma_consider_no_worse(g, rat, second, player_moved, b1);
    lemma_consider_no_worse(g, rat, third, player_moved, b2);
    assert(b3 == g.best_pick(rat, face, player_moved));
    let r = g.rat_step(i, player_moved).rats[i];
    let key = settled_key(g, rat, r, player_moved);
    match b3.direction {
        None => {
            assert(b3 == stay);
        },
        Some(d) => {
            assert(b3 == g.pick_for(rat, d, player_moved));
            assert(is_candidate(face, d));
            assert(offset_spec(rat, d) != rat);
        },
    }
    assert(key == b3);
    assert forall|d: Direction| is_candidate(face, d) && g.rat_may_enter(rat, d) implies !pick_less(
        #[trigger] g.pick_for(rat, d, player_moved),
        key,
    ) by {
        if d == face {
        } else if is_diagonal_spec(face) && x_only_spec(face) == Some(d) {
        } else {
        }
    }
    assert forall|d: Direction| r.position == Some(rat) && is_candidate(face, d) && g.rat_may_enter(rat, d) implies distance_squared_spec(
        #[trigger] offset_spec(rat, d),
        g.player_position,
    ) >= distance_squared_spec(rat, g.player_position) by {
        assert(!pick_less(g.pick_for(rat, d, player_moved), key));
    }
}

/// Law: a rat only ever steps strictly closer to the player, one step in the
/// direction it then faces, onto a cell that held neither a wall nor a rat,
/// and never onto the player from the front, where the sword is.
pub proof fn lemma_rat_steps_closer(g: GameView, i: int, player_moved: bool)
    requires
        g.wf(),
        0 <= i < g.rats.len(),
        g.rats[i].position is Some,
        g.rat_step(i, player_moved).rats[i].position != g.rats[i].position,
    ensures
        ({
            let r = g.rats[i].position->0;
            let h = g.rat_step(i, player_moved);
            let q = h.rats[i].position->0;
            let d = h.rats[i].direction;
            &&& h.rats[i].position is Some
            &&& q == offset_spec(r, d)
            &&& distance_squared_spec(q, g.player_position) < distance_squared_spec(
                r,
                g.player_position,
            )
            &&& g.grid.cell_at(q) != Cell::Wall
            &&& g.grid.cell_at(q) != Cell::Rat
            &&& !(q == g.player_position && d == opposite_spec(g.player_direction))
        }),
{
    let r = g.rats[i].position->0;
    let face = toward_spec(r, g.player_position)->0;
    if toward_spec(r, g.player_position) is Some {
        let second = if is_diagonal_spec(face) {
            x_only_spec(face)
        } else {
            None
        };
        let third = if is_diagonal_spec(face) {
            y_only_spec(face)
        } else {
            None
        };
        let stay = g.stay_pick(r);
        let b1 = g.consider(r, Some(face), player_moved, stay);
        let b2 = g.consider(r, second, player_moved, b1);
        lemma_consider_closer(g, r, Some(face), player_moved, stay);
        lemma_consider_closer(g, r, second, player_moved, b1);
        lemma_consider_closer(g, r, third, player_moved, b2);
    }
}

/// Rats' turns never change the level or the grid's size.
proof fn lemma_rats_from_keeps_shape(g: GameView, i: int, n: int, player_moved: bool)
    ensures
        g.rats_from(i, n, player_moved).level_id == g.level_id,
        g.rats_from(i, n, player_moved).grid.width == g.grid.width,
        g.rats_from(i, n, player_moved).grid.height == g.grid.height,
        g.rats_from(i, n, player_moved).portals == g.portals,
    decreases n - i,
{
    if i < n {
        lemma_rats_from_keeps_shape(g.rat_turn(i, player_moved), i + 1, n, player_moved);
    }
}

/// Law: a turn never changes the level, the size of its grid or its portals.
pub proof fn lemma_act_keeps_shape(g: GameView, movement: Option<Direction>)
    ensures
        g.act(movement).level_id == g.level_id,
        g.act(movement).grid.width == g.grid.width,
        g.act(movement).grid.height == g.grid.height,
        g.act(movement).portals == g.portals,
{
    if g.state == PlayState::Playing {
        let moved = match movement {
            Some(d) => g.after_player_move(d),
            None => g,
        };
        if moved.level_id != LevelId::Intro && moved.any_rat_alive() {
            lemma_rats_from_keeps_shape(moved, 0, moved.rats.len() as int, movement is Some);
        }
    }
}

/// A rat's turn keeps every actor inside the grid.
pub proof fn lemma_rat_turn_wf(g: GameView, i: int, player_moved: bool)
    requires
        g.wf(),
    ensures
        g.rat_turn(i, player_moved).wf(),
{
    if g.state == PlayState::Playing && 0 <= i < g.rats.len() && g.rats[i].position is Some {
        let r = g.rats[i].position->0;
        match toward_spec(r, g.player_position) {
            Some(face) => {
                lemma_best_pick_allowed(g, r, face, player_moved);
                let h = g.rat_step(i, player_moved);
                match g.best_pick(r, face, player_moved).direction {
                    Some(d) => {
                        let dest = offset_spec(r, d);
                        crate::grid::lemma_read_after_write(g.grid, r, dest, Cell::Empty);
                        crate::grid::lemma_read_after_write(
                            g.grid.with_cell(r, Cell::Empty),
                            dest,
                            dest,
                            Cell::Rat,
                        );
                    },
                    None => {},
                }
                assert forall|k: int|
                    0 <= k < h.rats.len() && (#[trigger] h.rats[k]).position is Some implies h.grid.in_bounds(
                    h.rats[k].position->0,
                ) by {
                    if k != i {
                        assert(h.rats[k] == g.rats[k]);
                    }
                }
            },
            None => {},
        }
    }
}

/// Rats' turns keep every actor inside the grid.
pub proof fn lemma_rats_from_wf(g: GameView, i: int, n: int, player_moved: bool)
    requires
        g.wf(),
    ensures
        g.rats_from(i, n, player_moved).wf(),
    decreases n - i,
{
    if i < n {
        lemma_rat_turn_wf(g, i, player_moved);
        lemma_rats_from_wf(g.rat_turn(i, player_moved), i + 1, n, player_moved);
    }
}

/// The player's move keeps every actor inside the grid.
pub proof fn lemma_player_move_wf(g: GameView, d: Direction)
    requires
        g.wf(),
    ensures
        g.after_player_move(d).wf(),
{
    let h = g.after_player_move(d);
    let dest = offset_spec(g.player_position, d);
    crate::grid::lemma_read_after_write(g.grid, g.player_position, dest, Cell::Empty);
    crate::grid::lemma_read_after_write(g.grid, g.player_position, dest, Cell::Portal);
    if g.grid.in_bounds(dest) {
        crate::grid::lemma_read_after_write(
            g.grid.with_cell(g.player_position, Cell::Empty),
            dest,
            dest,
            Cell::Player,
        );
        crate::grid::lemma_read_after_write(
            g.grid.with_cell(g.player_position, Cell::Portal),
            dest,
            dest,
            Cell::Player,
        );
    }
    assert forall|k: int| 0 <= k < h.rats.len() && (#[trigger] h.rats[k]).position is Some implies h.grid.in_bounds(
        h.rats[k].position->0,
    ) by {
        assert(h.rats[k].position == g.rats[k].position);
    }
}

/// Law: in the intro, a portal the player steps off is shown again.
pub proof fn lemma_portal_restored(g: GameView, d: Direction)
    requires
        g.wf(),
        g.state == PlayState::Playing,
        g.level_id == LevelId::Intro,
        g.on_portal(),
        g.act(Some(d)).player_position != g.player_position,
    ensures
        g.act(Some(d)).grid.cell_at(g.player_position) == Cell::Portal,
{
    let dest = offset_spec(g.player_position, d);
    let g1 = g.grid.with_cell(g.player_position, Cell::Portal);
    crate::grid::lemma_read_after_write(g.grid, g.player_position, g.player_position, Cell::Portal);
    if g1.in_bounds(dest) {
        crate::grid::lemma_read_after_write(g1, dest, g.player_position, Cell::Player);
    }
}

} // verus!
