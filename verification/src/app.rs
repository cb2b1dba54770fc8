use vstd::prelude::*;

use crate::camera::{following_spec, Camera, CameraView, TILE_SIZE};
use crate::direction::Direction;
use crate::game::{lemma_act_keeps_shape, lemma_start_wf, start_of, Game, GameView, PlayState};
use crate::level::{level_portals, LevelId};

verus! {

/// What the d-pad controls.
#[derive(Clone, Copy, Debug, PartialEq, Eq, Structural)]
pub enum InputMode {
    Player,
    Camera,
}

/// The mathematical state of the application.
pub struct AppView {
    pub game: GameView,
    pub camera: CameraView,
    pub input_mode: InputMode,
    /// Earlier states of the current puzzle, oldest first.
    pub history: Seq<GameView>,
}

/// The camera over `g`'s grid, centered on its player.
pub open spec fn camera_for(g: GameView) -> CameraView {
    following_spec(g.player_position, g.grid.width, g.grid.height)
}

impl AppView {
    /// The game and every saved state are well formed and consistent and
    /// share the grid's size with the camera; in player mode the camera is
    /// centered on the player; only the intro has portals, and they are the
    /// intro's own.
    pub open spec fn wf(self) -> bool {
        &&& self.game.wf()
        &&& self.game.consistent()
        &&& self.game.level_id != LevelId::Intro ==> self.game.portals.len() == 0
        &&& self.game.level_id == LevelId::Intro ==> self.game.portals == level_portals(
            LevelId::Intro,
        )
        &&& self.camera.wf()
        &&& self.camera.world_width == self.game.grid.width * TILE_SIZE
        &&& self.camera.world_height == self.game.grid.height * TILE_SIZE
        &&& self.input_mode == InputMode::Player ==> self.camera == camera_for(self.game)
        &&& forall|i: int|
            0 <= i < self.history.len() ==> {
                let h = #[trigger] self.history[i];
                &&& h.wf()
                &&& h.consistent()
                &&& h.level_id != LevelId::Intro ==> h.portals.len() == 0
                &&& h.level_id == LevelId::Intro ==> h.portals == level_portals(LevelId::Intro)
                &&& h.grid.width == self.game.grid.width
                &&& h.grid.height == self.game.grid.height
            }
    }

    /// Start level `id` afresh in player mode, with no history.
    pub open spec fn entered(self, id: LevelId) -> AppView {
        AppView {
            game: start_of(id),
            camera: camera_for(start_of(id)),
            input_mode: InputMode::Player,
            history: Seq::empty(),
        }
    }

    /// The player takes a turn; in a puzzle still being played, the state
    /// before the turn is saved for undo.
    pub open spec fn turn(self, movement: Option<Direction>) -> AppView {
        let next = self.game.act(movement);
        AppView {
            game: next,
            camera: self.camera.centered_on(next.player_position),
            history: if self.game.level_id != LevelId::Intro && self.game.state
                == PlayState::Playing {
                self.history.push(self.game)
            } else {
                self.history
            },
            ..self
        }
    }

    pub open spec fn pressed_direction(self, d: Direction) -> AppView {
        match self.input_mode {
            InputMode::Player => self.turn(Some(d)),
            InputMode::Camera => AppView { camera: self.camera.scrolled(d), ..self },
        }
    }

    /// A: on a portal of the intro, enter its level; otherwise stall for a
    /// turn.
    pub open spec fn pressed_a(self) -> AppView {
        if self.input_mode != InputMode::Player {
            self
        } else if self.game.level_id == LevelId::Intro && self.game.on_portal() {
            self.entered(self.game.portal_here()->0)
        } else {
            self.turn(None)
        }
    }

    /// B: restart the level.
    pub open spec fn pressed_b(self) -> AppView {
        if self.input_mode != InputMode::Player {
            self
        } else {
            self.entered(self.game.level_id)
        }
    }

    pub open spec fn toggled(self) -> AppView {
        match self.input_mode {
            InputMode::Player => AppView { input_mode: InputMode::Camera, ..self },
            InputMode::Camera => AppView {
                input_mode: InputMode::Player,
                camera: self.camera.centered_on(self.game.player_position),
                ..self
            },
        }
    }

    /// Leave a puzzle for the intro.
    pub open spec fn exited(self) -> AppView {
        if self.input_mode == InputMode::Player && self.game.level_id != LevelId::Intro {
            self.entered(LevelId::Intro)
        } else {
            self
        }
    }

    /// Take back the last turn of the puzzle.
    pub open spec fn undone(self) -> AppView {
        if self.input_mode == InputMode::Player && self.history.len() > 0 {
            let previous = self.history.last();
            AppView {
                game: previous,
                camera: self.camera.centered_on(previous.player_position),
                history: self.history.drop_last(),
                ..self
            }
        } else {
            self
        }
    }
}

/// The game, the camera and the input mode together.
pub struct App {
    game: Game,
    camera: Camera,
    input_mode: InputMode,
    history: Vec<Game>,
}

impl View for App {
    type V = AppView;

    closed spec fn view(&self) -> AppView {
        AppView {
            game: self.game@,
            camera: self.camera@,
            input_mode: self.input_mode,
            history: self.history@.map_values(|g: Game| g@),
        }
    }
}

/// The application as it starts: the Rats puzzle in player mode.
pub open spec fn initial_app() -> AppView {
    AppView {
        game: start_of(LevelId::Rats),
        camera: camera_for(start_of(LevelId::Rats)),
        input_mode: InputMode::Player,
        history: Seq::empty(),
    }
}

/// A fresh start of any level is a well-formed application state.
proof fn lemma_entered_wf(a: AppView, id: LevelId)
    ensures
        a.entered(id).wf(),
{
    lemma_start_wf(id);
}

impl App {
    /// Every application state is well formed.
    #[verifier::type_invariant]
    pub(crate) open spec fn inv(self) -> bool {
        self@.wf()
    }

    /// The application starts in the Rats puzzle, in player mode.
    pub fn new() -> (app: Self)
        ensures
            app@ == initial_app(),
            app@.wf(),
    {
        let game = Game::new(LevelId::Rats);
        let camera = Camera::following(game.player_position(), game.width(), game.height());
        let app = App { game, camera, input_mode: InputMode::Player, history: Vec::new() };
        assert(app@.history =~= Seq::<GameView>::empty());
        app
    }

    /// Start level `id` afresh.
    fn enter(&mut self, id: LevelId)
        ensures
            final(self)@ == old(self)@.entered(id),
            final(self)@.wf(),
    {
        proof {
            use_type_invariant(&*self);
        }
        proof {
            lemma_entered_wf(self@, id);
        }
        let game = Game::new(id);
        let camera = Camera::following(game.player_position(), game.width(), game.height());
        let app = App { game, camera, input_mode: InputMode::Player, history: Vec::new() };
        assert(app@.history =~= Seq::<GameView>::empty());
        *self = app;
    }

    /// Restart the current level in player mode.
    pub fn restart(&mut self)
        ensures
            final(self)@ == old(self)@.entered(old(self)@.game.level_id),
            final(self)@.wf(),
    {
        proof {
            use_type_invariant(&*self);
        }
        let id = self.game.level_id();
        self.enter(id);
    }

    /// One turn of the game, saving the state before it for undo.
    fn take_turn(&mut self, movement: Option<Direction>)
        ensures
            final(self)@ == old(self)@.turn(movement),
            final(self)@.wf(),
    {
        proof {
            use_type_invariant(&*self);
        }
        let ghost before = self@;
        proof {
            lemma_act_keeps_shape(before.game, movement);
        }
        // The next state is built aside and installed whole, so that the
        // application's invariant holds at every step.
        let mut history: Vec<Game> = Vec::new();
        std::mem::swap(&mut history, &mut self.history);
        if self.game.level_id() != LevelId::Intro && self.game.state() == PlayState::Playing {
            history.push(self.game.snapshot());
        }
        let mut game = self.game.snapshot();
        game.act(movement);
        let mut camera = self.camera;
        camera.follow(game.player_position());
        let next = App { game, camera, input_mode: self.input_mode, history };
        proof {
            assert(next@.history =~= before.turn(movement).history);
            let a = next@;
            assert forall|i: int| 0 <= i < a.history.len() implies {
                let h = #[trigger] a.history[i];
                &&& h.wf()
                &&& h.consistent()
                &&& h.level_id != LevelId::Intro ==> h.portals.len() == 0
                &&& h.level_id == LevelId::Intro ==> h.portals == level_portals(LevelId::Intro)
                &&& h.grid.width == a.game.grid.width
                &&& h.grid.height == a.game.grid.height
            } by {
                if i < before.history.len() {
                    assert(a.history[i] == before.history[i]);
                }
            }
        }
        *self = next;
    }

    /// A d-pad press: a turn in player mode, a scroll in camera mode.
    pub fn press_direction(&mut self, direction: Direction)
        ensures
            final(self)@ == old(self)@.pressed_direction(direction),
            final(self)@.wf(),
    {
        proof {
            use_type_invariant(&*self);
        }
        match self.input_mode {
            InputMode::Player => self.take_turn(Some(direction)),
            InputMode::Camera => {
                let mut camera = self.camera;
                camera.scroll(direction);
                self.camera = camera;
            },
        }
    }

    /// The A button: in the intro, enter the portal under the player;
    /// elsewhere, or off a portal, stall for a turn.
    pub fn press_a(&mut self)
        ensures
            final(self)@ == old(self)@.pressed_a(),
            final(self)@.wf(),
    {
        proof {
            use_type_invariant(&*self);
        }
        if self.input_mode == InputMode::Player {
            if self.game.level_id() == LevelId::Intro {
                match self.game.portal_destination() {
                    Some(id) => self.enter(id),
                    None => self.take_turn(None),
                }
            } else {
                self.take_turn(None);
            }
        }
    }

    /// The B button: restart the level.
    pub fn press_b(&mut self)
        ensures
            final(self)@ == old(self)@.pressed_b(),
            final(self)@.wf(),
    {
        proof {
            use_type_invariant(&*self);
        }
        if self.input_mode == InputMode::Player {
            self.restart();
        }
    }

    /// A and B together: switch between moving the player and moving the camera.
    pub fn toggle_camera_mode(&mut self)
        ensures
            final(self)@ == old(self)@.toggled(),
            final(self)@.wf(),
    {
        proof {
            use_type_invariant(&*self);
        }
        match self.input_mode {
            InputMode::Player => {
                self.input_mode = InputMode::Camera;
            },
            InputMode::Camera => {
                let mut camera = self.camera;
                camera.follow(self.game.player_position());
                self.camera = camera;
                self.input_mode = InputMode::Player;
            },
        }
    }

    /// Up and down together: leave the puzzle for the intro.
    pub fn exit_level(&mut self)
        ensures
            final(self)@ == old(self)@.exited(),
            final(self)@.wf(),
    {
        proof {
            use_type_invariant(&*self);
        }
        if self.input_mode == InputMode::Player && self.game.level_id() != LevelId::Intro {
            self.enter(LevelId::Intro);
        }
    }

    /// Left and right together: take back the last turn of the puzzle.
    pub fn undo(&mut self)
        ensures
            final(self)@ == old(self)@.undone(),
            final(self)@.wf(),
    {
        proof {
            use_type_invariant(&*self);
        }
        if self.input_mode == InputMode::Player && self.history.len() > 0 {
            let ghost before = self@;
            let mut history: Vec<Game> = Vec::new();
            std::mem::swap(&mut history, &mut self.history);
            let previous = match history.pop() {
                Some(g) => g,
                None => {
                    return;
                },
            };
            let mut camera = self.camera;
            camera.follow(previous.player_position());
            proof {
                assert(history@.map_values(|g: Game| g@) =~= before.history.drop_last());
                assert(before.history.last() == before.history[before.history.len() - 1]);
            }
            *self = App { game: previous, camera, input_mode: self.input_mode, history };
        }
    }

    pub fn game(&self) -> (g: &Game)
        ensures
            g@ == self@.game,
    {
        &self.game
    }

    pub fn camera(&self) -> (c: Camera)
        ensures
            c@ == self@.camera,
    {
        self.camera
    }

    pub fn input_mode(&self) -> (m: InputMode)
        ensures
            m == self@.input_mode,
    {
        self.input_mode
    }
}

/// Law: undo takes back a move: in a puzzle still being played, moving the
/// player and then undoing restores the application exactly as it was.
pub proof fn lemma_undo_restores_move(a: AppView, d: Direction)
    requires
        a.wf(),
        a.input_mode == InputMode::Player,
        a.game.level_id != LevelId::Intro,
        a.game.state == PlayState::Playing,
    ensures
        a.pressed_direction(d).undone() == a,
{
    let b = a.pressed_direction(d);
    assert(b.history.last() == a.game);
    assert(b.history.drop_last() =~= a.history);
}

/// Law: undo takes back a stall in the same way.
pub proof fn lemma_undo_restores_stall(a: AppView)
    requires
        a.wf(),
        a.input_mode == InputMode::Player,
        a.game.level_id != LevelId::Intro,
        a.game.state == PlayState::Playing,
    ensures
        a.pressed_a().undone() == a,
{
    let b = a.pressed_a();
    assert(b.history.last() == a.game);
    assert(b.history.drop_last() =~= a.history);
}

/// Law: A enters a level only from a portal of the intro; anywhere else in
/// player mode it is one stalled turn, and outside the intro there is no
/// portal to enter.
pub proof fn lemma_a_stalls_off_intro_portal(a: AppView)
    requires
        a.wf(),
        a.input_mode == InputMode::Player,
        !(a.game.level_id == LevelId::Intro && a.game.on_portal()),
    ensures
        a.pressed_a() == a.turn(None),
        a.pressed_a().input_mode == InputMode::Player,
        a.pressed_a().camera == camera_for(a.pressed_a().game),
        a.game.level_id != LevelId::Intro ==> !a.game.on_portal(),
{
    if a.game.level_id != LevelId::Intro {
        assert(a.game.portals.len() == 0);
    }
    lemma_act_keeps_shape(a.game, None);
}

/// Law: in the intro, A on one of its portals enters the level that portal
/// leads to.
pub proof fn lemma_intro_portal_enters(a: AppView, i: int)
    requires
        a.wf(),
        a.input_mode == InputMode::Player,
        a.game.level_id == LevelId::Intro,
        0 <= i < level_portals(LevelId::Intro).len(),
        a.game.player_position == level_portals(LevelId::Intro)[i].position,
    ensures
        a.pressed_a() == a.entered(level_portals(LevelId::Intro)[i].destination),
{
    reveal_with_fuel(crate::game::portal_at, 6);
}

/// Law: in player mode B starts the current level afresh: the game is the
/// level's starting layout, the camera follows its player, and nothing is
/// left to undo.
pub proof fn lemma_b_restarts_level(a: AppView)
    requires
        a.input_mode == InputMode::Player,
    ensures
        a.pressed_b().game == start_of(a.game.level_id),
        a.pressed_b().camera == following_spec(
            start_of(a.game.level_id).player_position,
            start_of(a.game.level_id).grid.width,
            start_of(a.game.level_id).grid.height,
        ),
        a.pressed_b().history.len() == 0,
        a.pressed_b().input_mode == InputMode::Player,
{
}

/// Law: in camera mode the buttons that act on the game do nothing, and the
/// d-pad moves only the camera.
pub proof fn lemma_camera_mode_leaves_game(a: AppView, d: Direction)
    requires
        a.input_mode == InputMode::Camera,
    ensures
        a.pressed_a() == a,
        a.pressed_b() == a,
        a.exited() == a,
        a.undone() == a,
        a.pressed_direction(d).game == a.game,
        a.pressed_direction(d).history == a.history,
        a.pressed_direction(d).input_mode == InputMode::Camera,
{
}

/// Law: leaving camera mode brings the camera back to the player, so
/// toggling twice from player mode changes nothing.
pub proof fn lemma_toggle_returns_to_player(a: AppView)
    requires
        a.wf(),
    ensures
        a.input_mode == InputMode::Camera ==> a.toggled().camera == camera_for(a.game)
            && a.toggled().input_mode == InputMode::Player,
        a.input_mode == InputMode::Player ==> a.toggled().toggled() == a,
{
}

} // verus!
